//! Escape-time fractal rendering: the iteration counter that decides how long
//! an orbit stays inside the bailout region, and the compositor that turns a
//! grid of iteration counts into a packed RGBA pixel buffer.

pub mod canvas;
pub mod colour;
pub mod escape;
pub mod render;

pub use canvas::{gen_struct_dimensions, Dimensions};
pub use colour::{push_pixel, ByteOrder, Colour};
pub use escape::{escape_count, mandel_iter};
pub use render::{check_request, render_counts, RenderError};
