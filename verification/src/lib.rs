//! Edge-sharpening kernels on RGBA images: luminance, Sobel gradient, and the
//! colour and gradient pushes, with their behaviour stated and proved.

pub mod buffer;
pub mod clamp;
pub mod edges;
pub mod frame;
pub mod image_kernel;
pub mod kernel;
pub mod laws;
pub mod outside;
pub mod pixel;
pub mod rows;
