//! Text drawn with a bitmap font: how wide a text is, which cells it lights,
//! and the text widget.

use crate::adjusted_color::{color_of, parse_color};
use crate::font::{Font, FontView, Glyph, GlyphView};
use crate::geometry::{
    is_coord, lemma_prepend_twice, ops_view, prepend, FillRect, Point, Rgb, Size, WidgetError,
};
use vstd::prelude::*;

verus! {

/// The height of a line of text, in pixels.
pub const TEXT_HEIGHT: u32 = 5;

/// The direction in which a text runs from its starting point.
#[derive(Clone, Copy, Debug, PartialEq, Eq, Structural)]
pub enum TextAlign {
    /// The text starts at the point and runs to the right.
    Left,
    /// The text is drawn last character first, each one further left.
    Right,
}

/// How far the cursor moves after a character: 2 pixels after a space, 4
/// after any other character.
pub open spec fn advance(c: char) -> nat {
    if c == ' ' {
        2
    } else {
        4
    }
}

/// The natural width of a text: the sum of the advances of its characters.
pub open spec fn text_width(text: Seq<char>) -> nat
    decreases text.len(),
{
    if text.len() == 0 {
        0
    } else {
        text_width(text.drop_last()) + advance(text.last())
    }
}

/// The width of the first `i` characters never exceeds the width of the
/// whole text, and a text of `n` characters is at most `4 * n` wide.
pub proof fn lemma_text_width_prefix(text: Seq<char>, i: int)
    requires
        0 <= i <= text.len(),
    ensures
        text_width(text.take(i)) <= text_width(text),
        text_width(text) <= 4 * text.len(),
    decreases text.len(),
{
    if text.len() == 0 {
        assert(text.take(i) == text);
    } else if i == text.len() {
        assert(text.take(i) == text);
        lemma_text_width_prefix(text.drop_last(), i - 1);
    } else {
        lemma_text_width_prefix(text.drop_last(), i);
        assert(text.drop_last().take(i) == text.take(i));
    }
}

/// The width of a text grows by the advance of each character appended.
pub proof fn lemma_text_width_step(text: Seq<char>, i: int)
    requires
        0 <= i < text.len(),
    ensures
        text_width(text.take(i + 1)) == text_width(text.take(i)) + advance(text[i]),
{
    assert(text.take(i + 1).drop_last() == text.take(i));
}

/// The characters of a text, in order.
pub fn chars_of(text: &str) -> (chars: Vec<char>)
    ensures
        chars@ == text@,
{
    let mut chars: Vec<char> = Vec::new();
    for c in it: text.chars()
        invariant
            chars@ == it.seq().take(it.index() as int),
            it.seq() == text@,
    {
        chars.push(c);
    }
    chars
}

/// Measures a text. There is no width where it exceeds `u32::MAX`.
pub fn measure_text(text: &str) -> (width: Option<u32>)
    ensures
        width is Some <==> text_width(text@) <= u32::MAX,
        width matches Some(w) ==> w == text_width(text@),
{
    let chars = chars_of(text);
    let mut width: u32 = 0;
    let mut i: usize = 0;
    while i < chars.len()
        invariant
            i <= chars.len(),
            chars@ == text@,
            width == text_width(chars@.take(i as int)),
        decreases chars.len() - i,
    {
        let step: u32 = if chars[i] == ' ' {
            2
        } else {
            4
        };
        proof {
            lemma_text_width_step(chars@, i as int);
            lemma_text_width_prefix(chars@, i + 1);
        }
        if width > u32::MAX - step {
            return None;
        }
        width = width + step;
        i = i + 1;
    }
    assert(chars@.take(i as int) == chars@);
    Some(width)
}

/// The steps that light the cells of `glyph` from cell `k` on, row by row,
/// with the glyph's top-left cell at `(x0, y0)`: one 1 by 1 rectangle for each
/// lit cell. A lit cell at a position that no coordinate can hold fails with
/// `DistributionOverflow`.
pub open spec fn glyph_ops(glyph: GlyphView, k: nat, x0: int, y0: int, color: Rgb) -> Result<
    Seq<FillRect>,
    WidgetError,
>
    decreases glyph.bits.len() - k,
{
    if k >= glyph.bits.len() {
        Ok(Seq::empty())
    } else if glyph.bits[k as int] {
        let x = x0 + k % glyph.width;
        let y = y0 + k / glyph.width;
        if is_coord(x) && is_coord(y) {
            prepend(
                seq![FillRect { x: x as i64, y: y as i64, width: 1, height: 1, color }],
                glyph_ops(glyph, k + 1, x0, y0, color),
            )
        } else {
            Err(WidgetError::DistributionOverflow)
        }
    } else {
        glyph_ops(glyph, k + 1, x0, y0, color)
    }
}

/// The steps that draw the characters of `chars` from the `i`-th on, with the
/// cursor at `(x, y)`. Each glyph is centred in the font's bounding box, whose
/// top-left corner is the cursor; the cursor then moves by the character's
/// advance times `direction`. A character without a glyph fails with
/// `GlyphNotFound`.
pub open spec fn text_ops(
    font: FontView,
    chars: Seq<char>,
    i: nat,
    x: int,
    y: int,
    color: Rgb,
    direction: int,
) -> Result<Seq<FillRect>, WidgetError>
    decreases chars.len() - i,
{
    if i >= chars.len() {
        Ok(Seq::empty())
    } else {
        match font.glyph(chars[i as int]) {
            None => Err(WidgetError::GlyphNotFound),
            Some(glyph) => match glyph_ops(
                glyph,
                0,
                x + (font.width - glyph.width) / 2,
                y + (font.height - glyph.height) / 2,
                color,
            ) {
                Err(e) => Err(e),
                Ok(ops) => prepend(
                    ops,
                    text_ops(
                        font,
                        chars,
                        i + 1,
                        x + direction * advance(chars[i as int]),
                        y,
                        color,
                        direction,
                    ),
                ),
            },
        }
    }
}

/// The steps that draw `text` from `start`: left to right for `Left`; for
/// `Right` the characters are taken last to first and the cursor moves left.
pub open spec fn draw_text_spec(
    font: FontView,
    text: Seq<char>,
    start: Point,
    color: Rgb,
    align: TextAlign,
) -> Result<Seq<FillRect>, WidgetError> {
    match align {
        TextAlign::Left => text_ops(font, text, 0, start.x as int, start.y as int, color, 1),
        TextAlign::Right => text_ops(
            font,
            text.reverse(),
            0,
            start.x as int,
            start.y as int,
            color,
            -1,
        ),
    }
}

/// Appends to `ops` the steps that light the cells of `glyph`, whose top-left
/// cell is at `(x0, y0)`.
fn draw_glyph(ops: &mut Vec<FillRect>, glyph: &Glyph, x0: i128, y0: i128, color: Rgb) -> (done:
    Result<(), WidgetError>)
    requires
        -0x4000_0000_0000_0000_0000_0000 <= x0 <= 0x4000_0000_0000_0000_0000_0000,
        -0x4000_0000_0000_0000_0000_0000 <= y0 <= 0x4000_0000_0000_0000_0000_0000,
    ensures
        match glyph_ops(glyph@, 0, x0 as int, y0 as int, color) {
            Ok(drawn) => done is Ok && final(ops)@ == old(ops)@ + drawn,
            Err(e) => done == Err::<(), WidgetError>(e),
        },
{
    let cells = glyph.cells();
    let width = glyph.width();
    let ghost all = glyph_ops(glyph@, 0, x0 as int, y0 as int, color);
    let ghost before = ops@;
    let ghost mut drawn: Seq<FillRect> = Seq::empty();
    let mut k: usize = 0;
    proof {
        lemma_prepend_twice(drawn, Seq::empty(), all);
        assert(before + drawn == before);
    }
    while k < cells
        invariant
            k <= cells,
            cells == glyph@.bits.len(),
            width == glyph@.width,
            glyph@.wf(),
            -0x4000_0000_0000_0000_0000_0000 <= x0 <= 0x4000_0000_0000_0000_0000_0000,
            -0x4000_0000_0000_0000_0000_0000 <= y0 <= 0x4000_0000_0000_0000_0000_0000,
            all == glyph_ops(glyph@, 0, x0 as int, y0 as int, color),
            ops@ == before + drawn,
            all == prepend(drawn, glyph_ops(glyph@, k as nat, x0 as int, y0 as int, color)),
        decreases cells - k,
    {
        if glyph.lit(k) {
            assert(width > 0) by (nonlinear_arith)
                requires
                    glyph@.bits.len() == glyph@.width * glyph@.height,
                    width == glyph@.width,
                    k < glyph@.bits.len(),
            ;
            let x: i128 = x0 + (k % (width as usize)) as i128;
            let y: i128 = y0 + (k / (width as usize)) as i128;
            if x < i64::MIN as i128 || x > i64::MAX as i128 || y < i64::MIN as i128 || y
                > i64::MAX as i128 {
                return Err(WidgetError::DistributionOverflow);
            }
            let step = FillRect { x: x as i64, y: y as i64, width: 1, height: 1, color };
            ops.push(step);
            proof {
                lemma_prepend_twice(
                    drawn,
                    seq![step],
                    glyph_ops(glyph@, (k + 1) as nat, x0 as int, y0 as int, color),
                );
                assert(ops@ == before + (drawn + seq![step]));
                drawn = drawn + seq![step];
            }
        }
        k = k + 1;
    }
    proof {
        lemma_prepend_twice(drawn, Seq::empty(), Ok(Seq::empty()));
    }
    Ok(())
}

/// Draws `text` with `font` in one colour, starting at `start`, and returns
/// the steps in drawing order.
pub fn draw_text(font: &Font, text: &str, start: Point, color: Rgb, align: TextAlign) -> (result:
    Result<Vec<FillRect>, WidgetError>)
    ensures
        ops_view(result) == draw_text_spec(font@, text@, start, color, align),
{
    let chars = chars_of(text);
    let n = chars.len();
    let ghost run = match align {
        TextAlign::Left => chars@,
        TextAlign::Right => chars@.reverse(),
    };
    let ghost direction: int = match align {
        TextAlign::Left => 1,
        TextAlign::Right => -1,
    };
    let ghost all = text_ops(font@, run, 0, start.x as int, start.y as int, color, direction);
    let mut ops: Vec<FillRect> = Vec::new();
    let mut cursor: i128 = start.x as i128;
    let mut i: usize = 0;
    proof {
        lemma_prepend_twice(ops@, Seq::empty(), all);
        assert(run.take(0) == Seq::<char>::empty());
        assert(all == draw_text_spec(font@, text@, start, color, align));
    }
    while i < n
        invariant
            i <= n,
            n == chars.len(),
            run.len() == n,
            all == draw_text_spec(font@, text@, start, color, align),
            align == TextAlign::Left ==> run == chars@ && direction == 1,
            align == TextAlign::Right ==> run == chars@.reverse() && direction == -1,
            cursor == start.x + direction * text_width(run.take(i as int)),
            all == prepend(
                ops@,
                text_ops(font@, run, i as nat, cursor as int, start.y as int, color, direction),
            ),
        decreases n - i,
    {
        let at = match align {
            TextAlign::Left => i,
            TextAlign::Right => n - 1 - i,
        };
        let c = chars[at];
        assert(c == run[i as int]);
        proof {
            lemma_text_width_prefix(run.take(i as int), i as int);
            lemma_text_width_step(run, i as int);
        }
        let glyph = match font.glyph(c) {
            Some(g) => g,
            None => {
                return Err(WidgetError::GlyphNotFound);
            },
        };
        let x0 = cursor + ((font.width() - glyph.width()) / 2) as i128;
        let y0 = start.y as i128 + ((font.height() - glyph.height()) / 2) as i128;
        let ghost before = ops@;
        match draw_glyph(&mut ops, glyph, x0, y0, color) {
            Ok(()) => {},
            Err(e) => {
                return Err(e);
            },
        }
        let step: i128 = if c == ' ' {
            2
        } else {
            4
        };
        let ghost old_cursor = cursor;
        cursor = match align {
            TextAlign::Left => cursor + step,
            TextAlign::Right => cursor - step,
        };
        proof {
            let drawn = glyph_ops(glyph@, 0, x0 as int, y0 as int, color)->Ok_0;
            assert(cursor == old_cursor + direction * advance(c)) by (nonlinear_arith)
                requires
                    direction == 1 || direction == -1,
                    direction == 1 ==> cursor == old_cursor + step,
                    direction == -1 ==> cursor == old_cursor - step,
                    step == advance(c),
            ;
            assert(cursor == start.x + direction * text_width(run.take(i + 1))) by (nonlinear_arith)
                requires
                    old_cursor == start.x + direction * text_width(run.take(i as int)),
                    cursor == old_cursor + direction * advance(c),
                    text_width(run.take(i + 1)) == text_width(run.take(i as int)) + advance(c),
            ;
            lemma_prepend_twice(
                before,
                drawn,
                text_ops(font@, run, (i + 1) as nat, cursor as int, start.y as int, color, direction),
            );
        }
        i = i + 1;
    }
    proof {
        lemma_prepend_twice(ops@, Seq::empty(), Ok(Seq::empty()));
    }
    Ok(ops)
}

/// What a text widget is: its text and its colour string.
pub struct TextView {
    pub text: Seq<char>,
    pub color: Seq<char>,
}

impl TextView {
    /// The steps that draw the widget with its top-left corner at `point`,
    /// once its colour string has been read: the text, left to right, in
    /// that colour. Without a colour the widget fails with `InvalidColor`
    /// before anything is drawn.
    pub open spec fn ops_in(self, font: FontView, point: Point, color: Option<Rgb>) -> Result<
        Seq<FillRect>,
        WidgetError,
    > {
        match color {
            None => Err(WidgetError::InvalidColor),
            Some(color) => draw_text_spec(font, self.text, point, color, TextAlign::Left),
        }
    }

    /// The steps that draw the widget with its top-left corner at `point`, in
    /// the colour that its colour string stands for.
    pub open spec fn ops(self, font: FontView, point: Point) -> Result<Seq<FillRect>, WidgetError> {
        self.ops_in(font, point, color_of(self.color))
    }
}

/// A line of text in one colour.
#[derive(Debug)]
pub struct TextWidget {
    text: String,
    color: String,
}

impl View for TextWidget {
    type V = TextView;

    closed spec fn view(&self) -> TextView {
        TextView { text: self.text@, color: self.color@ }
    }
}

impl Clone for TextWidget {
    fn clone(&self) -> (copy: Self)
        ensures
            copy@ == self@,
    {
        proof {
            use_type_invariant(self);
        }
        TextWidget { text: self.text.clone(), color: self.color.clone() }
    }
}

impl TextWidget {
    #[verifier::type_invariant]
    spec fn inv(self) -> bool {
        text_width(self.text@) <= u32::MAX
    }

    /// Builds a text widget. The colour string is read when the widget is
    /// drawn. A text wider than `u32::MAX` pixels fails with
    /// `DistributionOverflow`.
    pub fn new(text: String, color: String) -> (widget: Result<TextWidget, WidgetError>)
        ensures
            match widget {
                Ok(w) => w@ == (TextView { text: text@, color: color@ }) && text_width(text@)
                    <= u32::MAX,
                Err(e) => e == WidgetError::DistributionOverflow && text_width(text@) > u32::MAX,
            },
    {
        match measure_text(text.as_str()) {
            Some(_) => Ok(TextWidget { text, color }),
            None => Err(WidgetError::DistributionOverflow),
        }
    }

    /// The text of the widget.
    pub fn text(&self) -> (text: &str)
        ensures
            text@ == self@.text,
    {
        self.text.as_str()
    }

    /// The colour string of the widget.
    pub fn color(&self) -> (color: &str)
        ensures
            color@ == self@.color,
    {
        self.color.as_str()
    }

    /// The natural size: as wide as the advances of the characters add up
    /// to, and one line high.
    pub fn measure(&self) -> (size: Size)
        ensures
            size.width == text_width(self@.text),
            size.height == TEXT_HEIGHT,
    {
        proof {
            use_type_invariant(self);
        }
        Size { width: measure_text(self.text.as_str()).unwrap(), height: TEXT_HEIGHT }
    }

    /// A text widget does not move: it has one frame.
    pub fn frame_count(&self) -> (frames: u32)
        ensures
            frames == 1,
    {
        1
    }

    /// The steps that draw the widget at `point` in `color`, which is what
    /// reading the widget's colour string gave.
    pub fn render_in(&self, font: &Font, point: Point, color: Option<Rgb>) -> (result: Result<
        Vec<FillRect>,
        WidgetError,
    >)
        ensures
            ops_view(result) == self@.ops_in(font@, point, color),
    {
        match color {
            None => Err(WidgetError::InvalidColor),
            Some(color) => draw_text(font, self.text.as_str(), point, color, TextAlign::Left),
        }
    }

    /// The steps that draw the widget at `point`. They are the same for every
    /// frame.
    pub fn render(&self, font: &Font, point: Point, frame: u32) -> (result: Result<
        Vec<FillRect>,
        WidgetError,
    >)
        ensures
            ops_view(result) == self@.ops(font@, point),
    {
        self.render_in(font, point, parse_color(self.color.as_str()))
    }
}

} // verus!
