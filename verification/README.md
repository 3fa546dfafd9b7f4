# gamut

The logic of a photo and short video editor, verified with Verus.

`src/` is the library. It holds what the editor decides and computes on plain
values: the edit of a photo and its masks, the versions kept beside a photo,
the project file and its paths, the timeline and its tracks, undo, the brush
and the text its strokes are kept in, the command line, what the panels do
with a click, the plan of a reel and of a screenshot, and the integer parts of
the mask filters. Every function there states what it returns or changes, and
the public proof functions state what holds across several of them.

Single and double precision numbers travel through the library as their bit
patterns (`num::Single`, `num::Double`), and places and pressures as whole
steps (`brush::Steps`). Time on the timeline is counted in ticks.

`app/` is the program around it: the window, the files, the JSON of a sidecar
and of a project, and the floating-point arithmetic of the picture. The GPU
and the video decoder are the traits of `app/platform.rs`.

`tests/` runs the library on concrete values.
