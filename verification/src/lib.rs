//! Widgets for a small fixed-size pixel panel: text and bar charts are
//! measured, arranged into rows and columns, laid out against an exact pixel
//! budget and turned into a list of rectangles to fill, one list per
//! animation frame. A rasterised frame is converted from premultiplied pixels
//! to straight-alpha RGBA bytes.
//!
//! Every function here is verified against the contract it carries; the few
//! calls into other crates stand behind small wrappers whose contracts are
//! taken on trust and documented as such.

pub mod adjusted_color;
pub mod chart;
pub mod dashboard;
pub mod draw_buffer;
pub mod font;
pub mod geometry;
pub mod image;
pub mod layout;
pub mod pusher;
pub mod text;
pub mod widget;
