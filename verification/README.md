# frost

A small 2D game engine on winit and wgpu, split in two.

- `src/` is the verified library, proved with Verus: the integer core of the
  engine. It holds the splitmix64 random number generator (`rng`), the glyph
  atlas's shelf packer (`text`), the byte sizes and grow-only policy of the
  GPU light and occluder fields (`field`), the window's input bookkeeping and
  the decisions it drives in the event loop (`input`), the run configuration
  and the window's centred placement (`config`), the font and sprite checks
  and the scene's integer vocabulary (`objects`), and the tween repeat modes
  (`tween`). Calls into `swash` and `image` stand behind small trusted
  wrappers whose contracts name what the outside crate decides.
- `app/` is ordinary Rust around it: the window and GPU plumbing, audio,
  gamepads, and everything computed in floating point (transforms, colours,
  collisions, particles, tweens, text layout and rasterization).
- `tests/` exercises the library through its public API.
