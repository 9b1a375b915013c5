//! Verified core of a wgpu/OpenXR 3D viewer: texture layout arithmetic, the
//! demo checkerboard, Wavefront OBJ text processing, VR frame-timing
//! bookkeeping, Vulkan format and memory-type selection, OpenXR session
//! decisions and camera movement input.
//!
//! Everything that touches the GPU, the window, the headset, the file system
//! or floating-point maths lives in the application crate under `app/`.

pub mod renderer;
pub mod demo;
pub mod texture;
pub mod timing;
pub mod vulkan;
pub mod session;
pub mod camera;
pub mod text;
pub mod obj;
pub mod model;
pub mod shader;
