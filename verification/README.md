# pixel_engine

The decisions of the Pixel engine's Vulkan renderer, verified with Verus.

- `src/` — the library, over plain values (raw Vulkan enum and flag values,
  names as `String`):
  - `queues`: the queue families that support an operation, and the family
    each of the graphics, transfer and compute queues is taken from;
  - `device`: the logical device's queue families, extensions and features;
  - `phys_device`: the choice of the physical device and the count of its
    device-local memory;
  - `swapchain`: the surface format, present mode, presenting families and
    swapchain settings;
  - `instance`: layers, instance extensions, the merged extension list and
    the layer check;
  - `debug`: the debug messenger's masks and the callback's classification;
  - `frame`: the objects a frame uses and the frame counter;
  - `vulkan`: the calls into `ash` the logic makes.
- `app/` — the program: the window and event loop, every Vulkan call, the
  debug callback, the Lua script runner and the UDP client.
- `tests/` — tests of the library on concrete values, including checks of
  its constants against `ash`.
