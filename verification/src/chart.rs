//! Bar charts: one bar per value, one pixel wide, standing on the bottom of
//! the chart's row.

use crate::adjusted_color::{color_of, parse_color};
use crate::geometry::{
    is_coord, lemma_prepend_twice, ops_view, prepend, FillRect, Point, Rgb, Size, WidgetError,
};
use vstd::prelude::*;

verus! {

/// The height of a chart, in pixels.
pub const CHART_HEIGHT: u32 = 5;

/// The colour string of a bar that is cut off at the top of the chart.
pub const ALERT_HEX: &'static str = "#0ff";

/// The colour string of a bar more than one pixel high that is not cut off.
pub const NEUTRAL_HEX: &'static str = "#eee";

/// The colour string of a bar one pixel high.
pub const DIM_HEX: &'static str = "#555";

/// The three kinds of bar, by which its colour is chosen.
#[derive(Clone, Copy, Debug, PartialEq, Eq, Structural)]
pub enum Tier {
    /// The value does not fit the chart: the bar is cut off at the top.
    Alert,
    /// The bar fits and is more than one pixel high.
    Neutral,
    /// The bar is one pixel high.
    Dim,
}

/// The colours of the three kinds of bar, each as far as it could be read.
#[derive(Clone, Copy, Debug, PartialEq, Eq, Structural)]
pub struct TierColors {
    pub alert: Option<Rgb>,
    pub neutral: Option<Rgb>,
    pub dim: Option<Rgb>,
}

impl TierColors {
    /// The colour of a kind of bar.
    pub open spec fn of(self, tier: Tier) -> Option<Rgb> {
        match tier {
            Tier::Alert => self.alert,
            Tier::Neutral => self.neutral,
            Tier::Dim => self.dim,
        }
    }
}

/// The height of the bar for `value` in a chart `height` pixels high: one
/// more than the value, but no more than the chart.
pub open spec fn bar_height(value: u64, height: u32) -> nat {
    if value + 1 <= height {
        (value + 1) as nat
    } else {
        height as nat
    }
}

/// The kind of the bar for `value`.
pub open spec fn bar_tier(value: u64, height: u32) -> Tier {
    if value + 1 > height {
        Tier::Alert
    } else if bar_height(value, height) > 1 {
        Tier::Neutral
    } else {
        Tier::Dim
    }
}

/// The colours that the chart's colour strings stand for.
pub open spec fn chart_colors() -> TierColors {
    TierColors {
        alert: color_of(ALERT_HEX@),
        neutral: color_of(NEUTRAL_HEX@),
        dim: color_of(DIM_HEX@),
    }
}

/// The steps that draw the bars of `data` from the `i`-th on, for a chart
/// whose top-left corner is `origin`: bar `i` stands in column `i` and ends
/// at the bottom row. A bar whose colour could not be read fails with
/// `InvalidColor`; one at a position that no coordinate can hold, with
/// `DistributionOverflow`.
pub open spec fn bar_ops(data: Seq<u64>, height: u32, i: nat, origin: Point, colors: TierColors) -> Result<
    Seq<FillRect>,
    WidgetError,
>
    decreases data.len() - i,
{
    if i >= data.len() {
        Ok(Seq::empty())
    } else {
        match colors.of(bar_tier(data[i as int], height)) {
            None => Err(WidgetError::InvalidColor),
            Some(color) => {
                let h = bar_height(data[i as int], height);
                let x = origin.x + i;
                let y = origin.y + height - h;
                if is_coord(x) && is_coord(y) {
                    prepend(
                        seq![FillRect { x: x as i64, y: y as i64, width: 1, height: h as u32, color }],
                        bar_ops(data, height, i + 1, origin, colors),
                    )
                } else {
                    Err(WidgetError::DistributionOverflow)
                }
            },
        }
    }
}

/// Draws one bar per value, left to right, for a chart `height` pixels high
/// with its top-left corner at `origin`, and returns the steps in drawing
/// order. No value, no step.
pub fn draw_bars(data: &Vec<u64>, height: u32, origin: Point, colors: TierColors) -> (result: Result<
    Vec<FillRect>,
    WidgetError,
>)
    ensures
        ops_view(result) == bar_ops(data@, height, 0, origin, colors),
{
    let ghost all = bar_ops(data@, height, 0, origin, colors);
    let mut ops: Vec<FillRect> = Vec::new();
    let mut i: usize = 0;
    proof {
        lemma_prepend_twice(ops@, Seq::empty(), all);
    }
    while i < data.len()
        invariant
            i <= data.len(),
            all == bar_ops(data@, height, 0, origin, colors),
            all == prepend(ops@, bar_ops(data@, height, i as nat, origin, colors)),
        decreases data.len() - i,
    {
        let value = data[i];
        let high = value >= height as u64;
        let h: u32 = if high {
            height
        } else {
            (value + 1) as u32
        };
        let tinted = if high {
            colors.alert
        } else if h > 1 {
            colors.neutral
        } else {
            colors.dim
        };
        let color = match tinted {
            Some(c) => c,
            None => {
                return Err(WidgetError::InvalidColor);
            },
        };
        let x: i128 = origin.x as i128 + i as i128;
        let y: i128 = origin.y as i128 + height as i128 - h as i128;
        if x > i64::MAX as i128 || y > i64::MAX as i128 {
            return Err(WidgetError::DistributionOverflow);
        }
        let step = FillRect { x: x as i64, y: y as i64, width: 1, height: h, color };
        proof {
            lemma_prepend_twice(
                ops@,
                seq![step],
                bar_ops(data@, height, (i + 1) as nat, origin, colors),
            );
        }
        ops.push(step);
        i = i + 1;
    }
    proof {
        lemma_prepend_twice(ops@, Seq::empty(), Ok(Seq::empty()));
    }
    Ok(ops)
}

/// What a chart widget is: its values, and its height in pixels.
pub struct ChartView {
    pub data: Seq<u64>,
    pub height: u32,
}

impl ChartView {
    /// The steps that draw the chart with its top-left corner at `point`, in
    /// the colours that the chart's colour strings stand for.
    pub open spec fn ops(self, point: Point) -> Result<Seq<FillRect>, WidgetError> {
        bar_ops(self.data, self.height, 0, point, chart_colors())
    }
}

/// A bar chart of a series of values.
#[derive(Debug)]
pub struct ChartWidget {
    data: Vec<u64>,
    height: u32,
}

impl View for ChartWidget {
    type V = ChartView;

    closed spec fn view(&self) -> ChartView {
        ChartView { data: self.data@, height: self.height }
    }
}

impl Clone for ChartWidget {
    fn clone(&self) -> (copy: Self)
        ensures
            copy@ == self@,
    {
        proof {
            use_type_invariant(self);
        }
        ChartWidget { data: self.data.clone(), height: self.height }
    }
}

impl ChartWidget {
    #[verifier::type_invariant]
    spec fn inv(self) -> bool {
        &&& self.data.len() <= u32::MAX
        &&& self.height == CHART_HEIGHT
    }

    /// Builds a chart of `data`, `CHART_HEIGHT` pixels high. More than
    /// `u32::MAX` values fail with `DistributionOverflow`.
    pub fn new(data: &Vec<u64>) -> (widget: Result<ChartWidget, WidgetError>)
        ensures
            match widget {
                Ok(w) => w@ == (ChartView { data: data@, height: CHART_HEIGHT }) && data.len()
                    <= u32::MAX,
                Err(e) => e == WidgetError::DistributionOverflow && data.len() > u32::MAX,
            },
    {
        if data.len() > u32::MAX as usize {
            return Err(WidgetError::DistributionOverflow);
        }
        Ok(ChartWidget { data: data.clone(), height: CHART_HEIGHT })
    }

    /// The values of the chart.
    pub fn data(&self) -> (data: &Vec<u64>)
        ensures
            data@ == self@.data,
    {
        &self.data
    }

    /// The natural size: one pixel of width for each value.
    pub fn measure(&self) -> (size: Size)
        ensures
            size.width == self@.data.len(),
            size.height == CHART_HEIGHT,
            self@.height == CHART_HEIGHT,
    {
        proof {
            use_type_invariant(self);
        }
        Size { width: self.data.len() as u32, height: CHART_HEIGHT }
    }

    /// A chart does not move: it has one frame.
    pub fn frame_count(&self) -> (frames: u32)
        ensures
            frames == 1,
    {
        1
    }

    /// The steps that draw the chart at `point`. They are the same for every
    /// frame.
    pub fn render(&self, point: Point, frame: u32) -> (result: Result<Vec<FillRect>, WidgetError>)
        ensures
            ops_view(result) == self@.ops(point),
    {
        let colors = TierColors {
            alert: parse_color(ALERT_HEX),
            neutral: parse_color(NEUTRAL_HEX),
            dim: parse_color(DIM_HEX),
        };
        draw_bars(&self.data, self.height, point, colors)
    }
}

} // verus!
