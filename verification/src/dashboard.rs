//! The panel's own layout: which readings become which widgets, how numbers
//! are written, and how the rows are put together.

use crate::chart::ChartWidget;
use crate::font::{Font, FontView};
use crate::geometry::{FillRect, Point, WidgetError};
use crate::text::{lemma_text_width_prefix, text_width, TextView, TextWidget};
use crate::widget::{frames_from, hstack, pass_view, present, render_frames, vstack, Widget};
use vstd::prelude::*;

verus! {

/// The width of the panel, in pixels.
pub const PANEL_WIDTH: i32 = 64;

/// The height of the panel, in pixels.
pub const PANEL_HEIGHT: i32 = 32;

/// The margin kept free at the left and at the top of the panel.
pub const MARGIN: i64 = 2;

/// The distance between two rows of the panel.
pub const ROW_GAP: i64 = 3;

/// The number of past readings that a chart shows.
pub const CHART_POINTS: usize = 10;

/// The colour string of ordinary text.
pub const TEXT_HEX: &'static str = "#fff";

/// The colour string of a reading in the lowest band.
pub const LOW_HEX: &'static str = "#92dd67";

/// The colour string of a reading in the middle band.
pub const MEDIUM_HEX: &'static str = "#ffb537";

/// The colour string of a reading in the highest band.
pub const HIGH_HEX: &'static str = "#ff3838";

/// The decimal digit for `d`.
pub open spec fn digit_char(d: int) -> char {
    if d == 0 {
        '0'
    } else if d == 1 {
        '1'
    } else if d == 2 {
        '2'
    } else if d == 3 {
        '3'
    } else if d == 4 {
        '4'
    } else if d == 5 {
        '5'
    } else if d == 6 {
        '6'
    } else if d == 7 {
        '7'
    } else if d == 8 {
        '8'
    } else {
        '9'
    }
}

/// A number written in decimal, without leading zeros.
pub open spec fn decimal(n: nat) -> Seq<char>
    decreases n,
{
    if n < 10 {
        seq![digit_char(n as int)]
    } else {
        decimal(n / 10).push(digit_char((n % 10) as int))
    }
}

/// A number written in decimal, with a minus sign where it is negative.
pub open spec fn signed_decimal(n: int) -> Seq<char> {
    if n < 0 {
        seq!['-'] + decimal((-n) as nat)
    } else {
        decimal(n as nat)
    }
}

/// A number below 2^64 has at most 20 digits.
pub proof fn lemma_decimal_len(n: nat)
    ensures
        decimal(n).len() >= 1,
        n < 10 ==> decimal(n).len() == 1,
        n <= u64::MAX ==> decimal(n).len() <= 20,
{
    reveal_with_fuel(decimal, 21);
}

fn digit_str(d: u64) -> (s: &'static str)
    requires
        d < 10,
    ensures
        s@ == seq![digit_char(d as int)],
{
    proof {
        reveal_strlit("0");
        reveal_strlit("1");
        reveal_strlit("2");
        reveal_strlit("3");
        reveal_strlit("4");
        reveal_strlit("5");
        reveal_strlit("6");
        reveal_strlit("7");
        reveal_strlit("8");
        reveal_strlit("9");
    }
    let s = if d == 0 {
        "0"
    } else if d == 1 {
        "1"
    } else if d == 2 {
        "2"
    } else if d == 3 {
        "3"
    } else if d == 4 {
        "4"
    } else if d == 5 {
        "5"
    } else if d == 6 {
        "6"
    } else if d == 7 {
        "7"
    } else if d == 8 {
        "8"
    } else {
        "9"
    };
    assert(s@ =~= seq![digit_char(d as int)]);
    s
}

/// Appends `n`, written in decimal, to `out`.
pub fn push_decimal(out: &mut String, n: u64)
    ensures
        final(out)@ == old(out)@ + decimal(n as nat),
    decreases n,
{
    if n >= 10 {
        push_decimal(out, n / 10);
    }
    out.append(digit_str(n % 10));
    assert(out@ == old(out)@ + decimal(n as nat));
}

/// Appends `n`, written in decimal with its sign, to `out`.
pub fn push_signed_decimal(out: &mut String, n: i64)
    ensures
        final(out)@ == old(out)@ + signed_decimal(n as int),
{
    if n < 0 {
        proof {
            reveal_strlit("-");
        }
        out.append("-");
        assert(out@ == old(out)@ + seq!['-']);
        let magnitude: u64 = if n == i64::MIN {
            0x8000_0000_0000_0000
        } else {
            (-n) as u64
        };
        push_decimal(out, magnitude);
        assert(out@ == old(out)@ + signed_decimal(n as int));
    } else {
        push_decimal(out, n as u64);
    }
}

/// Why a reading is not shown.
#[derive(Clone, Copy, Debug, PartialEq, Eq, Structural)]
pub enum Skipped {
    /// There is no reading.
    Missing,
    /// The reading is in the range that needs no notice.
    Normal,
}

/// A text widget in the given colour, or nothing where the text is wider
/// than `u32::MAX` pixels.
pub fn label(text: String, hex: &str) -> (widget: Option<TextWidget>)
    ensures
        widget is Some <==> text_width(text@) <= u32::MAX,
        widget matches Some(t) ==> t@ == (TextView { text: text@, color: hex@ }),
{
    match TextWidget::new(text, hex.to_owned()) {
        Ok(t) => Some(t),
        Err(_) => None,
    }
}

/// A chart of the given values, or nothing where there are more than
/// `u32::MAX` of them.
pub fn chart(data: &Vec<u64>) -> (widget: Option<ChartWidget>)
    ensures
        widget is Some <==> data.len() <= u32::MAX,
        widget matches Some(c) ==> c@.data == data@,
{
    match ChartWidget::new(data) {
        Ok(c) => Some(c),
        Err(_) => None,
    }
}

/// The text that shows a count of unread mail: the count and ` MAIL`.
pub fn mail_label(count: u64) -> (text: String)
    ensures
        text@ == decimal(count as nat) + " MAIL"@,
{
    let mut text = String::new();
    push_decimal(&mut text, count);
    text.append(" MAIL");
    text
}

/// The text that shows a temperature: the degrees and the degree sign.
pub fn weather_label(temperature: i32) -> (text: String)
    ensures
        text@ == signed_decimal(temperature as int) + "\u{b0}"@,
{
    let mut text = String::new();
    push_signed_decimal(&mut text, temperature as i64);
    text.append("\u{b0}");
    text
}

/// The widget that shows a temperature, in the colour of ordinary text.
pub fn weather_widget(temperature: i32) -> (widget: Result<TextWidget, WidgetError>)
    ensures
        widget matches Ok(t) && t@ == (TextView {
            text: signed_decimal(temperature as int) + "\u{b0}"@,
            color: TEXT_HEX@,
        }),
{
    let text = weather_label(temperature);
    proof {
        reveal_strlit("\u{b0}");
        lemma_decimal_len((-temperature) as nat);
        lemma_decimal_len(temperature as nat);
        lemma_text_width_prefix(text@, 0);
    }
    TextWidget::new(text, TEXT_HEX.to_owned())
}

/// The colour string of a reading: low below `medium_from`, medium from
/// there on and high from `high_from` on.
pub open spec fn band_hex(level: int, medium_from: int, high_from: int) -> Seq<char> {
    if level >= high_from {
        HIGH_HEX@
    } else if level >= medium_from {
        MEDIUM_HEX@
    } else {
        LOW_HEX@
    }
}

fn band(level: i64, medium_from: i64, high_from: i64) -> (hex: &'static str)
    ensures
        hex@ == band_hex(level as int, medium_from as int, high_from as int),
{
    if level >= high_from {
        HIGH_HEX
    } else if level >= medium_from {
        MEDIUM_HEX
    } else {
        LOW_HEX
    }
}

/// The largest of the values; 0 where there is none.
pub open spec fn peak(values: Seq<i32>) -> int
    decreases values.len(),
{
    if values.len() == 0 {
        0
    } else if values.len() == 1 {
        values[0] as int
    } else {
        let rest = peak(values.drop_last());
        if values.last() > rest {
            values.last() as int
        } else {
            rest
        }
    }
}

/// The peak of values is one of them, and none is larger.
pub proof fn lemma_peak_is_largest(values: Seq<i32>)
    requires
        values.len() > 0,
    ensures
        forall|i: int| 0 <= i < values.len() ==> #[trigger] values[i] <= peak(values),
        exists|i: int| 0 <= i < values.len() && #[trigger] values[i] == peak(values),
    decreases values.len(),
{
    if values.len() > 1 {
        let front = values.drop_last();
        lemma_peak_is_largest(front);
        let found = choose|i: int| 0 <= i < front.len() && #[trigger] front[i] == peak(front);
        assert forall|i: int| 0 <= i < values.len() implies #[trigger] values[i] <= peak(values) by {
            if i < front.len() {
                assert(values[i] == front[i]);
            }
        }
        if values.last() > peak(front) {
            assert(values[values.len() - 1] == peak(values));
        } else {
            assert(values[found] == front[found]);
        }
    } else {
        assert(values[0] == peak(values));
    }
}

/// The widget for the day's ultraviolet readings: the peak and ` UV`, in the
/// medium colour from 5 on and in the high colour from 10 on. A peak below 5
/// is not shown.
pub fn uv_widget(values: &Vec<i32>) -> (result: Result<TextWidget, Skipped>)
    ensures
        match result {
            Ok(t) => values.len() > 0 && peak(values@) >= 5 && t@ == (TextView {
                text: signed_decimal(peak(values@)) + " UV"@,
                color: band_hex(peak(values@), 5, 10),
            }),
            Err(Skipped::Missing) => values.len() == 0,
            Err(Skipped::Normal) => values.len() > 0 && peak(values@) < 5,
        },
{
    if values.len() == 0 {
        return Err(Skipped::Missing);
    }
    let mut best: i32 = values[0];
    let mut i: usize = 1;
    assert(values@.take(1) == seq![values@[0]]);
    while i < values.len()
        invariant
            1 <= i <= values.len(),
            best == peak(values@.take(i as int)),
        decreases values.len() - i,
    {
        assert(values@.take(i + 1).drop_last() == values@.take(i as int));
        if values[i] > best {
            best = values[i];
        }
        i = i + 1;
    }
    assert(values@.take(i as int) == values@);
    if best < 5 {
        return Err(Skipped::Normal);
    }
    let mut text = String::new();
    push_signed_decimal(&mut text, best as i64);
    text.append(" UV");
    proof {
        reveal_strlit(" UV");
        lemma_decimal_len(best as nat);
        lemma_text_width_prefix(text@, 0);
    }
    Ok(TextWidget::new(text, band(best as i64, 5, 10).to_owned()).unwrap())
}

/// The widget for an air-quality index given in tens: the tens and ` AQI`,
/// in the low colour below 5, in the medium colour from 5 on and in the high
/// colour from 11 on.
pub fn aqi_widget(tens: u64) -> (widget: Result<TextWidget, WidgetError>)
    ensures
        widget matches Ok(t) && t@ == (TextView {
            text: decimal(tens as nat) + " AQI"@,
            color: band_hex(tens as int, 5, 11),
        }),
{
    let mut text = String::new();
    push_decimal(&mut text, tens);
    text.append(" AQI");
    proof {
        reveal_strlit(" AQI");
        lemma_decimal_len(tens as nat);
        lemma_text_width_prefix(text@, 0);
    }
    let level: i64 = if tens > 11 {
        11
    } else {
        tens as i64
    };
    TextWidget::new(text, band(level, 5, 11).to_owned())
}

/// The last `keep` of the values, in their order; all of them where there
/// are no more than `keep`.
pub open spec fn latest(values: Seq<u64>, keep: nat) -> Seq<u64> {
    if values.len() <= keep {
        values
    } else {
        values.subrange(values.len() - keep, values.len() as int)
    }
}

/// The readings that a chart shows: the last `keep` of them, oldest first.
pub fn recent(values: &Vec<u64>, keep: usize) -> (shown: Vec<u64>)
    ensures
        shown@ == latest(values@, keep as nat),
{
    let n = values.len();
    let first: usize = if n <= keep {
        0
    } else {
        n - keep
    };
    let mut shown: Vec<u64> = Vec::new();
    let mut i: usize = first;
    while i < n
        invariant
            first <= i <= n,
            n == values.len(),
            shown@ == values@.subrange(first as int, i as int),
        decreases n - i,
    {
        shown.push(values[i]);
        assert(values@.subrange(first as int, i + 1) == values@.subrange(
            first as int,
            i as int,
        ).push(values@[i as int]));
        i = i + 1;
    }
    assert(values@.subrange(0, n as int) == values@);
    shown
}

/// A text widget, if there is one, as a child of a row.
pub open spec fn text_slot(text: Option<TextWidget>) -> Option<Widget> {
    match text {
        Some(t) => Some(Widget::Text(t)),
        None => None,
    }
}

/// A chart, if there is one, as a child of a row.
pub open spec fn chart_slot(chart: Option<ChartWidget>) -> Option<Widget> {
    match chart {
        Some(c) => Some(Widget::Chart(c)),
        None => None,
    }
}

/// Whether `w` is a row of the children of `a` and `b` that are there.
pub open spec fn is_row(w: Widget, a: Option<Widget>, b: Option<Widget>) -> bool {
    w matches Widget::HStack(h) && h.items@ == present(seq![a, b])
}

fn text_child(text: Option<TextWidget>) -> (child: Option<Widget>)
    ensures
        child == text_slot(text),
{
    match text {
        Some(t) => Some(Widget::Text(t)),
        None => None,
    }
}

fn chart_child(chart: Option<ChartWidget>) -> (child: Option<Widget>)
    ensures
        child == chart_slot(chart),
{
    match chart {
        Some(c) => Some(Widget::Chart(c)),
        None => None,
    }
}

fn row(a: Option<Widget>, b: Option<Widget>) -> (child: Option<Widget>)
    ensures
        child matches Some(w) && is_row(w, a, b),
{
    let mut children: Vec<Option<Widget>> = Vec::new();
    children.push(a);
    children.push(b);
    assert(children@ == seq![a, b]);
    Some(Widget::HStack(hstack(children)))
}

/// Puts the panel together: four rows, `ROW_GAP` pixels apart, each of the
/// two widgets given for it as far as they are there. From the top: weather
/// and clock, mail and its chart, running and its chart, air quality and
/// ultraviolet.
pub fn dashboard(
    weather: Option<TextWidget>,
    clock: Option<TextWidget>,
    mail: Option<TextWidget>,
    mail_chart: Option<ChartWidget>,
    run: Option<TextWidget>,
    run_chart: Option<ChartWidget>,
    aqi: Option<TextWidget>,
    uv: Option<TextWidget>,
) -> (root: Widget)
    ensures
        root matches Widget::VStack(v) && {
            &&& v.gap == ROW_GAP
            &&& v.items@.len() == 4
            &&& is_row(v.items@[0], text_slot(weather), text_slot(clock))
            &&& is_row(v.items@[1], text_slot(mail), chart_slot(mail_chart))
            &&& is_row(v.items@[2], text_slot(run), chart_slot(run_chart))
            &&& is_row(v.items@[3], text_slot(aqi), text_slot(uv))
        },
{
    let mut rows: Vec<Option<Widget>> = Vec::new();
    rows.push(row(text_child(weather), text_child(clock)));
    rows.push(row(text_child(mail), chart_child(mail_chart)));
    rows.push(row(text_child(run), chart_child(run_chart)));
    rows.push(row(text_child(aqi), text_child(uv)));
    let ghost given = rows@;
    let column = vstack(rows).set_gap(ROW_GAP);
    proof {
        reveal_with_fuel(present, 5);
        assert(given.drop_last().drop_last().drop_last().drop_last().len() == 0);
        assert(column.items@ == seq![given[0]->0, given[1]->0, given[2]->0, given[3]->0]);
    }
    Widget::VStack(column)
}

/// Draws every frame of the panel, with the margin kept free: see
/// `render_frames`.
pub fn render_panel(root: &Widget, font: &Font) -> (result: Result<Vec<Vec<FillRect>>, WidgetError>)
    ensures
        pass_view(result) == frames_from(*root, font@, Point { x: MARGIN, y: MARGIN }, 0),
{
    render_frames(root, font, Point { x: MARGIN, y: MARGIN })
}

} // verus!
