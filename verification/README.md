# procmod-overlay

A transparent, click-through game overlay for Windows: an immediate-mode 2D drawing API
(shapes, text, HUD elements) rendered with Direct3D 11 into a layered window that follows a
target game window.

The crate is split in two.

- `src/` is the verified library (Verus). It holds the bookkeeping that the overlay's
  correctness rests on: colors; the draw list and its merging of draw commands; the shelf
  packer that lays the glyph atlas out and grows it; the index lists of thick polylines and
  polygon fans; the scissor clamp; the window's input state machine (event queue,
  mouse-button tracking, UTF-16 decoding, message handling, interaction-mode styles); and the
  renderer's device-loss bookkeeping.
- `app/` is ordinary Rust around it: floating-point geometry and text layout, glyph
  rasterization with `fontdue` and the distance field, and the Win32 / Direct3D 11 calls.

`tests/` exercises the library on concrete values.
