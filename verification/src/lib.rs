//! Escape-time fractal rendering, generic over a small number abstraction:
//! complex arithmetic, the fractals and their iteration, supersampled pixel
//! values, and the encoding of the finished image as binary PPM.
pub mod algebra;
pub mod fractal;
pub mod image;
pub mod number;
pub mod render;
pub mod view;

pub use fractal::{smooth, Fractal, Iterate, Julia, Mandelbrot, Newton, Orbit, Outcome, Phoenix};
pub use image::encode_ppm;
pub use number::{Complex, Float};
pub use render::render_pixel;
pub use view::{Bounds, View};
