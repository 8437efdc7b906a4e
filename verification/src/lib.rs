//! Verified core of the `gem` renderer: memory-type selection, staging-buffer
//! layout, swapchain format and frame bookkeeping, mesh assembly, shader
//! build planning, texture decoding, the frame-loop decisions and the
//! cached resource file system.

pub mod memory;
pub mod staging;
pub mod swapchain;
pub mod mesh;
pub mod gfs;
pub mod shader;
pub mod frame;
pub mod system;
pub mod texture;
