//! Pixel buffers and raster orientation for a small ray-tracing renderer.

pub mod image;
pub mod pixels;
pub mod raster;
