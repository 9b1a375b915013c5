# wgpu-3d-viewer

A 3D model viewer on wgpu with an OpenXR (Vulkan) headset mode.

- `src/` is the verified library (Verus): texture row padding and copies,
  the demo checkerboard, Wavefront OBJ line classification and face
  resolution, VR frame-timing bookkeeping and statistics, Vulkan format
  codes and memory-type selection, OpenXR session-state decisions, camera
  movement keys, and SPIR-V word decoding. Every public function states
  its result in its contract; the laws that relate several calls are
  public proof functions.
- `tests/` runs the library on concrete values.
- `app/` is the viewer program: window and event loop (winit), GPU work
  (wgpu), headset plumbing (openxr, ash), file loading (gltf, image) and
  all floating-point maths. It calls the library for the decisions above.

Run the viewer with `--vr` to render to a headset, or `--poc` for the
standalone Vulkan triangle on the headset.
