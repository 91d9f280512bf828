//! Sizing, compositing, input classification and wire framing for showing
//! pictures in a terminal that speaks the kitty graphics protocol.
//!
//! A picture passes through these stages: the input is classified and
//! decoded ([`dispatch`]), the size to show it at is planned
//! ([`dimensions`], from the terminal's size in [`geometry`]), it is
//! resampled ([`codec`]), laid over a background ([`composite`]), encoded
//! and framed for the wire ([`render`], [`protocol`]).

pub mod bytes;
pub mod codec;
pub mod color;
pub mod composite;
pub mod dimensions;
pub mod dispatch;
pub mod document;
pub mod error;
pub mod geometry;
pub mod office;
pub mod orchestrate;
pub mod page;
pub mod pages;
pub mod protocol;
pub mod raster;
pub mod render;
pub mod text;

pub use crate::color::{parse_color, Rgba};
pub use crate::composite::add_background;
pub use crate::dimensions::calculate_dimensions;
pub use crate::dispatch::{
    is_html, is_url, is_url_str, load_data, load_file, Capabilities, InputType, RpixContext,
};
pub use crate::geometry::get_term_size;
pub use crate::pages::parse_pages;
pub use crate::raster::RasterImage;
pub use crate::render::{render_image, Mode, RenderOptions};
