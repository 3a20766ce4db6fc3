//! Brightness fades for still images.
//!
//! A fade is a sequence of brightness factors, one per output frame, each an
//! exact fraction between zero (black) and one (the source image unchanged).
//! Rendering a frame multiplies the red, green and blue samples of every pixel
//! by the frame's factor and leaves alpha alone.
//!
//! All arithmetic is exact: factors are fractions of integers, and a scaled
//! sample is the integer part of the exact product.
//!
//! - [`timing`]: how many frames a fade has.
//! - [`schedule`]: the brightness factor of each frame, for each fade style.
//! - [`factor`]: the factors themselves, and how they scale a sample.
//! - [`raster`]: images as plain data, and the rendering of a frame.
//! - [`render`]: the same rendering for images of the `image` crate.

pub mod factor;
pub mod raster;
pub mod render;
pub mod schedule;
pub mod timing;

pub use factor::Factor;
pub use factor::Ratio;
pub use raster::Pixel;
pub use raster::Raster;
pub use raster::RasterView;
pub use raster::fade_samples;
pub use render::fade_image;
pub use render::try_fade_image;
pub use schedule::FadeStyle;
pub use schedule::fade_schedule;
pub use timing::TimingError;
pub use timing::frame_count;
