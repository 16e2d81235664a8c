//! Colour strings. A colour is written as a hexadecimal code, with or without
//! a leading `#`; reading one is left to the `palette` crate.
//!
//! The colour read here is the base colour of a drawing step. Dimming it for
//! the time of day is done where the steps are painted.

use crate::geometry::{Rgb, WidgetError};
use vstd::prelude::*;
use vstd::utf8::is_ascii_chars;

verus! {

/// The channels that `palette` reads from a hexadecimal colour code, or
/// `None` where it rejects the code.
pub uninterp spec fn hex_rgb(hex: Seq<char>) -> Option<(u8, u8, u8)>;

/// `str::parse` into `palette::Srgb<u8>`, which is `palette`'s `FromStr` for
/// `Rgb<S, u8>`. Trusted: on text made of ASCII characters the parser returns
/// without panicking, and what it returns depends on the text alone.
#[verifier::external_body]
fn parse_hex(hex: &str) -> (rgb: Option<(u8, u8, u8)>)
    requires
        hex.is_ascii(),
    ensures
        rgb == hex_rgb(hex@),
{
    match hex.parse::<palette::Srgb<u8>>() {
        Ok(color) => Some((color.red, color.green, color.blue)),
        Err(_) => None,
    }
}

/// The colour that a string stands for. A string with a character outside
/// ASCII stands for none.
pub open spec fn color_of(hex: Seq<char>) -> Option<Rgb> {
    if is_ascii_chars(hex) {
        match hex_rgb(hex) {
            Some((r, g, b)) => Some(Rgb { r, g, b }),
            None => None,
        }
    } else {
        None
    }
}

/// What resolving gives for a colour that was or was not found.
pub open spec fn resolved(color: Option<Rgb>) -> Result<Rgb, WidgetError> {
    match color {
        Some(c) => Ok(c),
        None => Err(WidgetError::InvalidColor),
    }
}

/// Reads a colour string.
pub fn parse_color(hex: &str) -> (color: Option<Rgb>)
    ensures
        color == color_of(hex@),
{
    if !hex.is_ascii() {
        return None;
    }
    match parse_hex(hex) {
        Some((r, g, b)) => Some(Rgb { r, g, b }),
        None => None,
    }
}

/// Reads a colour string, or fails with `InvalidColor`.
pub fn base_color(hex: &str) -> (color: Result<Rgb, WidgetError>)
    ensures
        color == resolved(color_of(hex@)),
{
    match parse_color(hex) {
        Some(c) => Ok(c),
        None => Err(WidgetError::InvalidColor),
    }
}

} // verus!
