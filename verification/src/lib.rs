//! A cursor-driven warp effect over a static raster image.
//!
//! The numeric pipeline works in fixed-point arithmetic: a coordinate or
//! colour channel is an `i64` counted in thousandths of a unit, so the
//! effect's constants (a 0.6/0.4 smoothing blend, a 190-pixel falloff
//! radius, millisecond clocks) are exact integers and every step of the
//! pipeline carries a proved contract.

pub mod color;
pub mod image;
pub mod pos;
pub mod shade;
pub mod smooth;
pub mod timing;
pub mod warp;

pub use color::Color;
pub use image::DecodeError;
pub use image::Image;
pub use image::Sampler;
pub use pos::Pos;
pub use smooth::Smooth;
pub use timing::Elapsed;
pub use timing::Fps;
pub use warp::Pipeline;
