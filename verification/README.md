# softbuffer_cg

A software-rendering surface on Core Graphics, for windows of AppKit and UIKit.

Frames are drawn into `IOSurface`s that the compositor reads without copying. The surface rotates
through three of them, and what it decides on the way is verified with Verus. The one exception is
the initial size in pixels, a product of floating-point numbers, which `app/` computes.

- `src/` is the verified library. It makes no system calls. Where something outside has to be done,
  it says what, and takes what came of it: `ring` and `buffer` hold the buffers, their ages and
  locks; `wait` the bounded wait for the compositor; `properties` what a surface is made with;
  `layer` the commands to layers and what they amount to; `observer` how the layer follows the root
  layer; `cg` the surface and the frame being drawn; `session` what holds over a surface's life.
- `app/` performs it with the system frameworks. It builds on Apple platforms only.
- `tests/` runs the library.
