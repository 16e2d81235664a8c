//! Plain values shared by every widget: positions, sizes, colours, the
//! rectangles that a widget asks to have filled, and the ways a widget can
//! fail.

use vstd::prelude::*;

verus! {

/// A position on the pixel grid. Positions may lie outside the panel.
#[derive(Clone, Copy, Debug, PartialEq, Eq, Structural)]
pub struct Point {
    pub x: i64,
    pub y: i64,
}

/// The natural extent of a widget, in pixels.
#[derive(Clone, Copy, Debug, PartialEq, Eq, Structural)]
pub struct Size {
    pub width: u32,
    pub height: u32,
}

/// An opaque colour, one byte per channel, not premultiplied.
#[derive(Clone, Copy, Debug, PartialEq, Eq, Structural)]
pub struct Rgb {
    pub r: u8,
    pub g: u8,
    pub b: u8,
}

/// One drawing step: fill the axis-aligned rectangle whose top-left corner is
/// `(x, y)` with `color`.
#[derive(Clone, Copy, Debug, PartialEq, Eq, Structural)]
pub struct FillRect {
    pub x: i64,
    pub y: i64,
    pub width: u32,
    pub height: u32,
    pub color: Rgb,
}

/// Why a widget could not be built or drawn.
#[derive(Clone, Copy, Debug, PartialEq, Eq, Structural)]
pub enum WidgetError {
    /// A colour string is not a hexadecimal colour code.
    InvalidColor,
    /// The font has no glyph for a character of the text.
    GlyphNotFound,
    /// A width or a position does not fit the integers that hold it.
    DistributionOverflow,
}

/// Whether `v` can be held by a coordinate of a `Point` or a `FillRect`.
pub open spec fn is_coord(v: int) -> bool {
    i64::MIN <= v <= i64::MAX
}

/// The steps `head`, followed by what `tail` gives, unless `tail` failed.
pub open spec fn prepend(head: Seq<FillRect>, tail: Result<Seq<FillRect>, WidgetError>) -> Result<
    Seq<FillRect>,
    WidgetError,
> {
    match tail {
        Ok(rest) => Ok(head + rest),
        Err(e) => Err(e),
    }
}

/// What an executable result is in terms of sequences.
pub open spec fn ops_view(result: Result<Vec<FillRect>, WidgetError>) -> Result<
    Seq<FillRect>,
    WidgetError,
> {
    match result {
        Ok(ops) => Ok(ops@),
        Err(e) => Err(e),
    }
}

/// Steps put in front of steps put in front of a result are the two runs of
/// steps, joined, put in front of it.
pub proof fn lemma_prepend_twice(
    a: Seq<FillRect>,
    b: Seq<FillRect>,
    tail: Result<Seq<FillRect>, WidgetError>,
)
    ensures
        prepend(a, prepend(b, tail)) == prepend(a + b, tail),
        prepend(Seq::empty(), tail) == tail,
        prepend(a, Ok(Seq::empty())) == Ok::<Seq<FillRect>, WidgetError>(a),
{
    match tail {
        Ok(rest) => {
            assert(a + (b + rest) == (a + b) + rest);
            assert(Seq::<FillRect>::empty() + rest == rest);
        },
        Err(_) => {},
    }
    assert(a + Seq::<FillRect>::empty() == a);
}

} // verus!
