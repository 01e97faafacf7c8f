# morphogen_render

The decision logic of the morphogen video-effect renderer, written in Verus and
proved against its contracts.

- `src/` is the verified library. Every `f32` the renderer carries is held
  there as its IEEE-754 bit pattern, so settings checks, binary formats,
  cache manifests, grid geometry, stamping and paint order, block remix
  orders and the modulation route grammar are stated and proved exactly.
  Public `law_*` proof functions state the properties that hold across calls
  (format round trips, paint order, the frame-zero tiling of the particle
  grid, the continuity identities of the collage, and more).
- `app/` is ordinary Rust around the library: `f32` buffers and settings with
  their JSON shape, file I/O for checkpoints and caches, and the
  floating-point arithmetic of those renders whose samplers and fields it
  has (tile means and textures, the fluid-mosaic forces, dispersion, the
  pool mosaic and its audio resynthesis), handing their integer decisions to
  the library. Renders built on the bilinear sampler, the vortex field or the
  optical flow are not part of this crate.
- `tests/` exercises the library on concrete values.
