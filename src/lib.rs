//! Host-side logic of a tool that runs a fragment shader over an image on the GPU:
//! row-pitch layout of the readback buffer, depadding, image framing, dimension
//! parsing and shader dialect selection. The GPU calls themselves live in the
//! application around this library.
pub mod error;
pub mod image;
pub mod dims;
pub mod layout;
pub mod program;
pub mod uniforms;
