//! Drawing: buffers of the graphics device, textures, frames and what is counted of them.

pub mod calls;
pub mod dmabuf;
pub mod facts;
pub mod laws;
pub mod probe;
pub mod renderer;
pub mod session;
pub mod shaders;
pub mod texture;
pub mod vulkan;
