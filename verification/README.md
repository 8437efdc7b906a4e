# gem

A small Vulkan renderer built on gfx-hal, whose decisions and data layouts
are a verified library.

- `src/` is the verified library (Verus):
  - `memory`: memory types of an adapter and the choice of the first type
    that a resource's requirements allow;
  - `staging`: buffer sizes, pitch alignment and the row-by-row layout of
    texture data in staging buffers;
  - `swapchain`: surface colour-format choice, frames in flight and the
    semaphore index ring;
  - `mesh`: assembly of the triangle list of an OBJ model;
  - `frame`: the render loop's reactions to window events and frame
    outcomes, and the viewport rectangle;
  - `texture`: decoding of TGA textures, after checking from the file's
    bytes that the decoder handles it;
  - `shader`: which shader sources are compiled and where the SPIR-V goes;
  - `gfs`: the cached resource file system with SHA-256 digests;
  - `system`: the traits of dispatched workers and their inboxes.
- `app/` is the program: window, GPU objects, disk access, camera maths.
- `tests/` exercises the library on concrete values.
