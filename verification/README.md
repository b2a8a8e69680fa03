# csg

The logic of a small casino game's renderer, verified with Verus.

- `src/` is the verified library:
  - `assets`: the asset manager. Textures and fonts get keys from a slot map
    and names through a hash map; every name resolves to a live key, and a
    name or key that names nothing answers the missing texture or font.
  - `font`: the glyph table of a bitmap font (which atlas glyph to draw for
    each character, and the fallback glyph).
  - `atlas`: queues of instances for the atlas renderer, one per layer and
    texture, drawn every layer before the next (back to front), and the plan
    for drawing each queue (buffer reuse, instance count).
  - `pixels`: decoding texture and atlas images to RGBA (through the `image`
    crate) and checking an atlas image against its description.
  - `flipbook`, `surface`, `window`, `layer`, `gpu_matrix`: frame stepping,
    surface sizing and format choice, window-event and per-frame surface decisions, render layers,
    and the column-major matrix layout the GPU reads.
  - `slots`: the slot map of the `slotmap` crate, known to Verus only through
    its contents and the contracts of the calls made on it.
- `app/` is the program: the window (glfw), the GPU work (wgpu), JSON
  parsing and all floating-point layout, calling the library for every
  decision above.
- `tests/` runs the library on concrete values.
