//! What the Adjust tab remembers: the mask that is selected, the overlay, the
//! component a range is picked for, the names being typed, the prompt that is
//! up and the brush.

use crate::brush_tool::BrushTool;
use vstd::prelude::*;

verus! {

/// What the Adjust tab remembers between frames.
#[derive(Debug)]
pub struct AdjustState {
    /// The mask the sections point at.
    pub selected_mask: Option<usize>,
    /// Show overlay: the selected mask is drawn in red.
    pub mask_overlay: bool,
    /// The component a click on the picture picks a range for.
    pub picking: Option<usize>,
    /// The mask whose name is being typed, and what was typed.
    pub mask_renaming: Option<(usize, String)>,
    /// The version the Save, Discard, Cancel prompt is up about.
    pub pending_switch: Option<String>,
    pub brush: BrushTool,
}

impl Default for AdjustState {
    fn default() -> (r: Self)
        ensures
            r == AdjustState::default_spec(),
    {
        AdjustState {
            selected_mask: None,
            mask_overlay: false,
            picking: None,
            mask_renaming: None,
            pending_switch: None,
            brush: BrushTool::default(),
        }
    }
}

impl AdjustState {
    /// Nothing selected, picked, typed or asked, and the brush down.
    pub open spec fn default_spec() -> AdjustState {
        AdjustState {
            selected_mask: None,
            mask_overlay: false,
            picking: None,
            mask_renaming: None,
            pending_switch: None,
            brush: BrushTool::default_spec(),
        }
    }

    /// The state with the brush down and the overlay given back.
    pub open spec fn brush_down(self) -> AdjustState {
        AdjustState {
            mask_overlay: self.brush.overlay_after(self.mask_overlay),
            brush: self.brush.down(),
            ..self
        }
    }

    /// The state with another mask, or none, selected.
    pub open spec fn selecting(self, mask: Option<usize>) -> AdjustState {
        AdjustState { selected_mask: mask, picking: None, ..self.brush_down() }
    }

    /// Puts the brush down. Whether the overlay changed.
    pub fn put_brush_down(&mut self) -> (r: bool)
        ensures
            *final(self) == old(self).brush_down(),
            r == old(self).brush.gives_back(old(self).mask_overlay),
    {
        self.brush.put_down(&mut self.mask_overlay)
    }

    /// Selects a mask, or none: the brush belongs to the mask that was
    /// selected and is put down, and so is what was being picked.
    pub fn select_mask(&mut self, mask: Option<usize>)
        ensures
            *final(self) == old(self).selecting(mask),
    {
        self.put_brush_down();
        self.selected_mask = mask;
        self.picking = None;
    }

    /// The mask that is drawn in red.
    pub fn overlay(&self) -> (r: Option<usize>)
        ensures
            r == if self.mask_overlay {
                self.selected_mask
            } else {
                None
            },
    {
        if self.mask_overlay {
            self.selected_mask
        } else {
            None
        }
    }
}

/// Selecting a mask selects it and nothing else: the brush is put down, the
/// pick is dropped, and the prompt and the name being typed stay.
pub proof fn selecting_a_mask_puts_the_brush_down(state: AdjustState, mask: Option<usize>)
    ensures
        state.selecting(mask).selected_mask == mask,
        state.selecting(mask).picking is None,
        state.selecting(mask).brush.armed is None,
        state.selecting(mask).brush.growing is None,
        state.selecting(mask).pending_switch == state.pending_switch,
        state.selecting(mask).mask_renaming == state.mask_renaming,
        state.selecting(mask).mask_overlay == state.brush.overlay_after(state.mask_overlay),
{
}

/// Putting the brush down leaves the selection, the pick and the prompt.
pub proof fn putting_the_brush_down_leaves_the_rest(state: AdjustState)
    ensures
        state.brush_down().selected_mask == state.selected_mask,
        state.brush_down().picking == state.picking,
        state.brush_down().pending_switch == state.pending_switch,
        state.brush_down().mask_renaming == state.mask_renaming,
        state.brush_down().brush == state.brush.down(),
        state.brush_down().mask_overlay == state.brush.overlay_after(state.mask_overlay),
{
}

} // verus!
