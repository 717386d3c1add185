//! Rendering of terminal screens to RGBA images.
//!
//! The verified core: the xterm colour model ([`theme`]), the screen model
//! read from `vt100` ([`screen`]), the screenshot layout ([`layout`]),
//! glyph-mask preparation ([`glyph`]), straight-alpha glyph compositing and
//! the final text-over-background compositing ([`raster`], [`canvas`]), and
//! the painting of a layout into an image ([`capture`]). Shape filling is
//! done by `tiny_skia` ([`pixmap`]), pixel storage by `image` ([`rgba`]),
//! each behind trusted items with stated contracts.
//!
//! Font rasterisation works in floating point and is not part of this
//! crate: a caller renders each text run of a [`layout::ScreenLayout`] into
//! [`GlyphImage`]s and hands them to [`capture::render_layout`].

pub mod theme;
pub mod utils;
pub mod raster;
pub mod rgba;
pub mod pixmap;
pub mod glyph;
pub mod canvas;
pub mod screen;
pub mod layout;
pub mod error;
pub mod capture;
pub mod laws;

pub use canvas::Canvas;
pub use capture::render_layout;
pub use error::ScreenshotError;
pub use glyph::GlyphImage;
pub use layout::{layout_in_range, layout_screen, ScreenLayout};
pub use rgba::RgbaBuffer;
pub use screen::ScreenGrid;
pub use theme::{Color, Theme};
pub use utils::clamp;
