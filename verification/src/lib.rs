//! Gamut is an editor for the photos and video you shoot on your phone. This
//! library is its document and its rules: the edit with its masks and
//! versions, the undo history, the project and its track, the export presets,
//! the command line, and the decisions the window and the exporters make.

pub mod adjust;
pub mod brush;
pub mod brush_tool;
pub mod command;
pub mod crop;
pub mod dehaze;
pub mod edge;
pub mod edit;
pub mod export;
pub mod geometry;
pub mod grid;
pub mod history;
pub mod look;
pub mod mask;
pub mod mask_panel;
pub mod num;
pub mod path;
pub mod project;
pub mod reel;
pub mod refine;
pub mod screenshot;
pub mod session;
pub mod sidecar;
pub mod stroke_text;
pub mod text;
pub mod timeline;
pub mod timeline_tab;
pub mod undo;
pub mod video;
pub mod view;
pub mod viewer;
