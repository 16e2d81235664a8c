//! The widget tree: text and charts at the leaves, rows and columns above
//! them. Every widget can be measured, says how many frames it needs, and
//! gives the steps that draw one frame of it.

use crate::chart::{ChartWidget, CHART_HEIGHT};
use crate::font::{Font, FontView};
use crate::geometry::{
    is_coord, lemma_prepend_twice, ops_view, prepend, FillRect, Point, Size, WidgetError,
};
use crate::layout::{as_nats, lemma_row_fills_target, offset, offsets};
use crate::text::{text_width, TextWidget, TEXT_HEIGHT};
use vstd::prelude::*;

verus! {

/// The width that every row and column reports, whatever it holds: the panel
/// less its margins.
pub const WIDTH: u32 = 61;

/// The height that every row and column reports.
pub const ROW_HEIGHT: u32 = 5;

/// A visual element.
#[derive(Debug)]
pub enum Widget {
    /// A line of text.
    Text(TextWidget),
    /// A bar chart.
    Chart(ChartWidget),
    /// A row of widgets.
    HStack(HStack),
    /// A column of widgets.
    VStack(VStack),
}

/// A row: the items side by side, spread over the width `WIDTH`.
#[derive(Debug)]
pub struct HStack {
    pub items: Vec<Widget>,
    /// Kept for the caller; the gaps of a row are computed from its items.
    pub gap: i64,
    /// Kept for the caller; it does not change the layout.
    pub expand: bool,
}

/// A column: the items one below the other, `gap` pixels apart.
#[derive(Debug)]
pub struct VStack {
    pub items: Vec<Widget>,
    /// The distance from the bottom of one item to the top of the next.
    pub gap: i64,
}

/// The natural widths of the items, in order.
pub open spec fn natural_widths(items: Vec<Widget>) -> Seq<nat> {
    Seq::new(items.len() as nat, |i: int| items[i].natural_width())
}

/// How far below the column's origin item `i` starts: the heights of the
/// items before it, and `gap` after each of them.
pub open spec fn drop_before(items: Vec<Widget>, gap: i64, i: nat) -> int
    decreases i,
{
    if i == 0 || i > items.len() {
        0
    } else {
        drop_before(items, gap, (i - 1) as nat) + items[i - 1].natural_height() + gap
    }
}

/// The largest frame count among the first `n` items; 1 where there is none.
pub open spec fn most_frames(items: Vec<Widget>, n: nat) -> nat
    decreases items, n,
{
    if n == 0 || n > items.len() {
        1
    } else if n == 1 {
        items[0].frames()
    } else {
        let rest = most_frames(items, (n - 1) as nat);
        let last = items[n - 1].frames();
        if last > rest {
            last
        } else {
            rest
        }
    }
}

/// The steps that draw the items of a row from the `i`-th on, for a row whose
/// top-left corner is `origin`. Item `i` is drawn `offset(WIDTH, widths, i)`
/// to the right of the origin; where no coordinate can hold that position the
/// row fails with `DistributionOverflow`. The first item that fails ends the
/// row with its error.
pub open spec fn row_ops(items: Vec<Widget>, i: nat, font: FontView, origin: Point, frame: u32) -> Result<
    Seq<FillRect>,
    WidgetError,
>
    decreases items, items.len() - i,
{
    if i >= items.len() {
        Ok(Seq::empty())
    } else {
        let x = origin.x + offset(WIDTH as int, natural_widths(items), i);
        if !is_coord(x) {
            Err(WidgetError::DistributionOverflow)
        } else {
            match items[i as int].ops(font, Point { x: x as i64, y: origin.y }, frame) {
                Err(e) => Err(e),
                Ok(ops) => prepend(ops, row_ops(items, i + 1, font, origin, frame)),
            }
        }
    }
}

/// The steps that draw the items of a column from the `i`-th on, for a column
/// whose top-left corner is `origin`. Item `i` is drawn
/// `drop_before(items, gap, i)` below the origin; where no coordinate can
/// hold that position the column fails with `DistributionOverflow`. The first
/// item that fails ends the column with its error.
pub open spec fn column_ops(
    items: Vec<Widget>,
    gap: i64,
    i: nat,
    font: FontView,
    origin: Point,
    frame: u32,
) -> Result<Seq<FillRect>, WidgetError>
    decreases items, items.len() - i,
{
    if i >= items.len() {
        Ok(Seq::empty())
    } else {
        let y = origin.y + drop_before(items, gap, i);
        if !is_coord(y) {
            Err(WidgetError::DistributionOverflow)
        } else {
            match items[i as int].ops(font, Point { x: origin.x, y: y as i64 }, frame) {
                Err(e) => Err(e),
                Ok(ops) => prepend(ops, column_ops(items, gap, i + 1, font, origin, frame)),
            }
        }
    }
}

impl Widget {
    /// The width that `measure` reports. Rows and columns do not grow with
    /// what they hold.
    pub open spec fn natural_width(self) -> nat {
        match self {
            Widget::Text(t) => text_width(t@.text),
            Widget::Chart(c) => c@.data.len(),
            Widget::HStack(_) => WIDTH as nat,
            Widget::VStack(_) => WIDTH as nat,
        }
    }

    /// The height that `measure` reports.
    pub open spec fn natural_height(self) -> nat {
        match self {
            Widget::Text(_) => TEXT_HEIGHT as nat,
            Widget::Chart(_) => CHART_HEIGHT as nat,
            Widget::HStack(_) => ROW_HEIGHT as nat,
            Widget::VStack(_) => ROW_HEIGHT as nat,
        }
    }

    /// The number of frames of the widget: 1 for text and charts; for a row
    /// or a column the largest count among its items, and 1 where it has
    /// none.
    pub open spec fn frames(self) -> nat
        decreases self,
    {
        match self {
            Widget::Text(_) => 1,
            Widget::Chart(_) => 1,
            Widget::HStack(h) => most_frames(h.items, h.items.len() as nat),
            Widget::VStack(v) => most_frames(v.items, v.items.len() as nat),
        }
    }

    /// The steps that draw frame `frame` of the widget with its top-left
    /// corner at `origin`, in drawing order, or the first failure.
    pub open spec fn ops(self, font: FontView, origin: Point, frame: u32) -> Result<
        Seq<FillRect>,
        WidgetError,
    >
        decreases self,
    {
        match self {
            Widget::Text(t) => t@.ops(font, origin),
            Widget::Chart(c) => c@.ops(origin),
            Widget::HStack(h) => row_ops(h.items, 0, font, origin, frame),
            Widget::VStack(v) => column_ops(v.items, v.gap, 0, font, origin, frame),
        }
    }

    /// The natural size of the widget.
    pub fn measure(&self) -> (size: Size)
        ensures
            size.width == self.natural_width(),
            size.height == self.natural_height(),
    {
        match self {
            Widget::Text(t) => t.measure(),
            Widget::Chart(c) => c.measure(),
            Widget::HStack(h) => h.measure(),
            Widget::VStack(v) => v.measure(),
        }
    }

    /// The number of frames that the widget needs.
    pub fn frame_count(&self) -> (frames: u32)
        ensures
            frames == self.frames(),
        decreases self,
    {
        match self {
            Widget::Text(t) => t.frame_count(),
            Widget::Chart(c) => c.frame_count(),
            Widget::HStack(h) => h.frame_count(),
            Widget::VStack(v) => v.frame_count(),
        }
    }

    /// The steps that draw frame `frame` of the widget at `point`.
    pub fn render(&self, font: &Font, point: Point, frame: u32) -> (result: Result<
        Vec<FillRect>,
        WidgetError,
    >)
        ensures
            ops_view(result) == self.ops(font@, point, frame),
        decreases self,
    {
        match self {
            Widget::Text(t) => t.render(font, point, frame),
            Widget::Chart(c) => c.render(point, frame),
            Widget::HStack(h) => h.render(font, point, frame),
            Widget::VStack(v) => v.render(font, point, frame),
        }
    }
}

/// The largest frame count among `items`, or 1 where there is none.
fn count_frames(items: &Vec<Widget>) -> (frames: u32)
    ensures
        frames == most_frames(*items, items.len() as nat),
    decreases items,
{
    let mut best: u32 = 1;
    let mut i: usize = 0;
    while i < items.len()
        invariant
            i <= items.len(),
            best == most_frames(*items, i as nat),
        decreases items.len() - i,
    {
        let frames = items[i].frame_count();
        if i == 0 || frames > best {
            best = frames;
        }
        i = i + 1;
    }
    best
}

impl HStack {
    /// Sets the gap that the row keeps for its caller.
    pub fn set_gap(self, gap: i64) -> (row: HStack)
        ensures
            row.items == self.items,
            row.gap == gap,
            row.expand == self.expand,
    {
        HStack { items: self.items, gap, expand: self.expand }
    }

    /// Sets the flag that the row keeps for its caller.
    pub fn set_expand(self, expand: bool) -> (row: HStack)
        ensures
            row.items == self.items,
            row.gap == self.gap,
            row.expand == expand,
    {
        HStack { items: self.items, gap: self.gap, expand }
    }

    /// The size of a row: `WIDTH` by `ROW_HEIGHT`, whatever it holds.
    pub fn measure(&self) -> (size: Size)
        ensures
            size == (Size { width: WIDTH, height: ROW_HEIGHT }),
    {
        Size { width: WIDTH, height: ROW_HEIGHT }
    }

    /// The number of frames of a row: the largest count among its items, and
    /// 1 where it has none.
    pub fn frame_count(&self) -> (frames: u32)
        ensures
            frames == most_frames(self.items, self.items.len() as nat),
        decreases self,
    {
        count_frames(&self.items)
    }

    /// The steps that draw frame `frame` of the row at `point`. A row of two
    /// or more items spreads them over `WIDTH`; a single item is drawn at
    /// `point`; an empty row draws nothing.
    pub fn render(&self, font: &Font, point: Point, frame: u32) -> (result: Result<
        Vec<FillRect>,
        WidgetError,
    >)
        ensures
            ops_view(result) == row_ops(self.items, 0, font@, point, frame),
        decreases self,
    {
        let n = self.items.len();
        let ghost widths = natural_widths(self.items);
        let mut measured: Vec<u32> = Vec::new();
        let mut k: usize = 0;
        while k < n
            invariant
                k <= n,
                n == self.items.len(),
                widths == natural_widths(self.items),
                measured.len() == k,
                forall|j: int| 0 <= j < k ==> #[trigger] measured[j] == widths[j],
            decreases n - k,
        {
            measured.push(self.items[k].measure().width);
            k = k + 1;
        }
        assert(as_nats(measured@) == widths);
        let starts = offsets(WIDTH, &measured);
        let ghost all = row_ops(self.items, 0, font@, point, frame);
        let mut ops: Vec<FillRect> = Vec::new();
        let mut i: usize = 0;
        proof {
            lemma_prepend_twice(ops@, Seq::empty(), all);
        }
        while i < n
            invariant
                i <= n,
                n == self.items.len(),
                widths == natural_widths(self.items),
                starts@.len() == n,
                forall|j: int|
                    0 <= j < n ==> #[trigger] starts@[j] == offset(WIDTH as int, widths, j as nat),
                forall|j: int|
                    0 <= j < n ==> -0x10_0000_0000_0000_0000_0000_0000 <= #[trigger] starts@[j]
                        <= 0x10_0000_0000_0000_0000_0000_0000,
                all == row_ops(self.items, 0, font@, point, frame),
                all == prepend(ops@, row_ops(self.items, i as nat, font@, point, frame)),
            decreases n - i,
        {
            let x: i128 = point.x as i128 + starts[i];
            if x < i64::MIN as i128 || x > i64::MAX as i128 {
                return Err(WidgetError::DistributionOverflow);
            }
            let at = Point { x: x as i64, y: point.y };
            let ghost before = ops@;
            match self.items[i].render(font, at, frame) {
                Ok(mut drawn) => {
                    proof {
                        lemma_prepend_twice(
                            before,
                            drawn@,
                            row_ops(self.items, (i + 1) as nat, font@, point, frame),
                        );
                    }
                    ops.append(&mut drawn);
                },
                Err(e) => {
                    return Err(e);
                },
            }
            i = i + 1;
        }
        proof {
            lemma_prepend_twice(ops@, Seq::empty(), Ok(Seq::empty()));
        }
        Ok(ops)
    }
}

impl VStack {
    /// Sets the distance between the items of the column.
    pub fn set_gap(self, gap: i64) -> (column: VStack)
        ensures
            column.items == self.items,
            column.gap == gap,
    {
        VStack { items: self.items, gap }
    }

    /// The size of a column: `WIDTH` by `ROW_HEIGHT`, whatever it holds.
    pub fn measure(&self) -> (size: Size)
        ensures
            size == (Size { width: WIDTH, height: ROW_HEIGHT }),
    {
        Size { width: WIDTH, height: ROW_HEIGHT }
    }

    /// The number of frames of a column: the largest count among its items,
    /// and 1 where it has none.
    pub fn frame_count(&self) -> (frames: u32)
        ensures
            frames == most_frames(self.items, self.items.len() as nat),
        decreases self,
    {
        count_frames(&self.items)
    }

    /// The steps that draw frame `frame` of the column at `point`: the items
    /// top to bottom, each one below the last by that item's height and the
    /// gap.
    pub fn render(&self, font: &Font, point: Point, frame: u32) -> (result: Result<
        Vec<FillRect>,
        WidgetError,
    >)
        ensures
            ops_view(result) == column_ops(self.items, self.gap, 0, font@, point, frame),
        decreases self,
    {
        let n = self.items.len();
        let ghost all = column_ops(self.items, self.gap, 0, font@, point, frame);
        let mut ops: Vec<FillRect> = Vec::new();
        let mut cursor: i128 = point.y as i128;
        let mut i: usize = 0;
        proof {
            lemma_prepend_twice(ops@, Seq::empty(), all);
        }
        while i < n
            invariant
                i <= n,
                n == self.items.len(),
                cursor == point.y + drop_before(self.items, self.gap, i as nat),
                all == column_ops(self.items, self.gap, 0, font@, point, frame),
                all == prepend(
                    ops@,
                    column_ops(self.items, self.gap, i as nat, font@, point, frame),
                ),
            decreases n - i,
        {
            if cursor < i64::MIN as i128 || cursor > i64::MAX as i128 {
                return Err(WidgetError::DistributionOverflow);
            }
            let at = Point { x: point.x, y: cursor as i64 };
            let ghost before = ops@;
            match self.items[i].render(font, at, frame) {
                Ok(mut drawn) => {
                    proof {
                        lemma_prepend_twice(
                            before,
                            drawn@,
                            column_ops(self.items, self.gap, (i + 1) as nat, font@, point, frame),
                        );
                    }
                    ops.append(&mut drawn);
                },
                Err(e) => {
                    return Err(e);
                },
            }
            let height = self.items[i].measure().height;
            cursor = cursor + height as i128 + self.gap as i128;
            i = i + 1;
        }
        proof {
            lemma_prepend_twice(ops@, Seq::empty(), Ok(Seq::empty()));
        }
        Ok(ops)
    }
}

/// A row of two or more items ends `WIDTH` pixels right of its origin: the
/// last item starts where its natural width is left of that.
pub proof fn lemma_row_ends_on_width(items: Vec<Widget>)
    requires
        items.len() >= 2,
    ensures
        offset(WIDTH as int, natural_widths(items), (items.len() - 1) as nat) + items[items.len()
            - 1].natural_width() == WIDTH,
{
    lemma_row_fills_target(WIDTH as int, natural_widths(items));
}

/// The frame count of a row or a column is the frame count of one of its
/// items, and no item has a larger one. Without items it is 1.
pub proof fn lemma_most_frames_is_largest(items: Vec<Widget>, n: nat)
    requires
        n <= items.len(),
    ensures
        n == 0 ==> most_frames(items, n) == 1,
        forall|i: int| 0 <= i < n ==> (#[trigger] items[i]).frames() <= most_frames(items, n),
        n > 0 ==> exists|i: int| 0 <= i < n && (#[trigger] items[i]).frames() == most_frames(items, n),
    decreases n,
{
    if n > 1 {
        lemma_most_frames_is_largest(items, (n - 1) as nat);
        let rest = most_frames(items, (n - 1) as nat);
        let found = choose|i: int| 0 <= i < n - 1 && (#[trigger] items[i]).frames() == rest;
        if items[n - 1].frames() > rest {
            assert(items[n - 1].frames() == most_frames(items, n));
        } else {
            assert(items[found].frames() == most_frames(items, n));
        }
    } else if n == 1 {
        assert(items[0].frames() == most_frames(items, n));
    }
}

/// No widget of this kind moves: the steps that draw it are the same for
/// every frame.
pub proof fn lemma_still_in_every_frame(w: Widget, font: FontView, origin: Point, a: u32, b: u32)
    ensures
        w.ops(font, origin, a) == w.ops(font, origin, b),
    decreases w,
{
    match w {
        Widget::Text(_) => {},
        Widget::Chart(_) => {},
        Widget::HStack(h) => {
            lemma_row_still(h.items, 0, font, origin, a, b);
        },
        Widget::VStack(v) => {
            lemma_column_still(v.items, v.gap, 0, font, origin, a, b);
        },
    }
}

proof fn lemma_row_still(items: Vec<Widget>, i: nat, font: FontView, origin: Point, a: u32, b: u32)
    ensures
        row_ops(items, i, font, origin, a) == row_ops(items, i, font, origin, b),
    decreases items, items.len() - i,
{
    if i < items.len() {
        let x = origin.x + offset(WIDTH as int, natural_widths(items), i);
        if is_coord(x) {
            lemma_still_in_every_frame(items[i as int], font, Point { x: x as i64, y: origin.y }, a, b);
            lemma_row_still(items, i + 1, font, origin, a, b);
        }
    }
}

proof fn lemma_column_still(
    items: Vec<Widget>,
    gap: i64,
    i: nat,
    font: FontView,
    origin: Point,
    a: u32,
    b: u32,
)
    ensures
        column_ops(items, gap, i, font, origin, a) == column_ops(items, gap, i, font, origin, b),
    decreases items, items.len() - i,
{
    if i < items.len() {
        let y = origin.y + drop_before(items, gap, i);
        if is_coord(y) {
            lemma_still_in_every_frame(items[i as int], font, Point { x: origin.x, y: y as i64 }, a, b);
            lemma_column_still(items, gap, i + 1, font, origin, a, b);
        }
    }
}

/// The widgets among `children`, in order: a child that is missing is left
/// out.
pub open spec fn present(children: Seq<Option<Widget>>) -> Seq<Widget>
    decreases children.len(),
{
    if children.len() == 0 {
        Seq::empty()
    } else {
        match children.last() {
            Some(w) => present(children.drop_last()).push(w),
            None => present(children.drop_last()),
        }
    }
}

/// The children that could be built, in order.
fn gather(children: Vec<Option<Widget>>) -> (items: Vec<Widget>)
    ensures
        items@ == present(children@),
{
    let ghost given = children@;
    let mut items: Vec<Widget> = Vec::new();
    proof {
        assert(given.take(0) == Seq::<Option<Widget>>::empty());
    }
    for child in it: children
        invariant
            it.seq() == given,
            items@ == present(given.take(it.index() as int)),
    {
        proof {
            assert(given.take(it.index() + 1).drop_last() == given.take(it.index() as int));
        }
        match child {
            Some(w) => {
                items.push(w);
            },
            None => {},
        }
    }
    proof {
        assert(given.take(given.len() as int) == given);
    }
    items
}

/// Builds a row of the children that could be built, in order, with no gap
/// set and `expand` off.
pub fn hstack(children: Vec<Option<Widget>>) -> (row: HStack)
    ensures
        row.items@ == present(children@),
        row.gap == 0,
        !row.expand,
{
    HStack { items: gather(children), gap: 0, expand: false }
}

/// Builds a column of the children that could be built, in order, with no
/// gap between them.
pub fn vstack(children: Vec<Option<Widget>>) -> (column: VStack)
    ensures
        column.items@ == present(children@),
        column.gap == 0,
{
    VStack { items: gather(children), gap: 0 }
}

/// The frames of `root` from frame `frame` on, each as the steps that draw
/// it, or the failure of the first frame that fails.
pub open spec fn frames_from(root: Widget, font: FontView, origin: Point, frame: nat) -> Result<
    Seq<Seq<FillRect>>,
    WidgetError,
>
    decreases root.frames() - frame,
{
    if frame >= root.frames() {
        Ok(Seq::empty())
    } else {
        match root.ops(font, origin, frame as u32) {
            Err(e) => Err(e),
            Ok(ops) => match frames_from(root, font, origin, frame + 1) {
                Err(e) => Err(e),
                Ok(rest) => Ok(seq![ops] + rest),
            },
        }
    }
}

/// The steps of each frame of `frames`.
pub open spec fn frame_views(frames: Seq<Vec<FillRect>>) -> Seq<Seq<FillRect>> {
    Seq::new(frames.len(), |i: int| frames[i]@)
}

/// What an executable pass is in terms of sequences.
pub open spec fn pass_view(result: Result<Vec<Vec<FillRect>>, WidgetError>) -> Result<
    Seq<Seq<FillRect>>,
    WidgetError,
> {
    match result {
        Ok(frames) => Ok(frame_views(frames@)),
        Err(e) => Err(e),
    }
}

/// A pass gives every frame or none. Where it succeeds there is one list of
/// steps for each frame of the widget, in order of the frames, and each is
/// what drawing that frame gives. Where it fails, a frame failed with that
/// error and every frame before it could be drawn.
pub proof fn lemma_frames_all_or_none(root: Widget, font: FontView, origin: Point, frame: nat)
    requires
        frame <= root.frames(),
    ensures
        match frames_from(root, font, origin, frame) {
            Ok(frames) => {
                &&& frames.len() == root.frames() - frame
                &&& forall|k: int|
                    0 <= k < frames.len() ==> root.ops(font, origin, (frame + k) as u32) == Ok::<
                        Seq<FillRect>,
                        WidgetError,
                    >(#[trigger] frames[k])
            },
            Err(e) => exists|bad: int|
                {
                    &&& frame <= bad < root.frames()
                    &&& #[trigger] root.ops(font, origin, bad as u32) == Err::<
                        Seq<FillRect>,
                        WidgetError,
                    >(e)
                    &&& forall|k: int|
                        frame <= k < bad ==> (#[trigger] root.ops(font, origin, k as u32)) is Ok
                },
        },
    decreases root.frames() - frame,
{
    if frame < root.frames() {
        lemma_frames_all_or_none(root, font, origin, frame + 1);
        match root.ops(font, origin, frame as u32) {
            Err(e) => {
                assert(root.ops(font, origin, (frame as int) as u32) == Err::<
                    Seq<FillRect>,
                    WidgetError,
                >(e));
            },
            Ok(ops) => match frames_from(root, font, origin, frame + 1) {
                Err(e) => {
                    let bad = choose|bad: int|
                        {
                            &&& frame + 1 <= bad < root.frames()
                            &&& #[trigger] root.ops(font, origin, bad as u32) == Err::<
                                Seq<FillRect>,
                                WidgetError,
                            >(e)
                            &&& forall|k: int|
                                frame + 1 <= k < bad ==> (#[trigger] root.ops(
                                    font,
                                    origin,
                                    k as u32,
                                )) is Ok
                        };
                    assert(root.ops(font, origin, bad as u32) == Err::<Seq<FillRect>, WidgetError>(e));
                    assert forall|k: int| frame <= k < bad implies (#[trigger] root.ops(
                        font,
                        origin,
                        k as u32,
                    )) is Ok by {
                        if k == frame {
                        }
                    }
                },
                Ok(rest) => {
                    let frames = seq![ops] + rest;
                    assert forall|k: int| 0 <= k < frames.len() implies root.ops(
                        font,
                        origin,
                        (frame + k) as u32,
                    ) == Ok::<Seq<FillRect>, WidgetError>(#[trigger] frames[k]) by {
                        if k > 0 {
                            assert(frames[k] == rest[k - 1]);
                            assert(frame + k == frame + 1 + (k - 1));
                        }
                    }
                },
            },
        }
    }
}

/// Draws every frame of `root` with its top-left corner at `origin`, frame 0
/// first. The first frame that fails ends the pass with its error, and no
/// frame is returned.
pub fn render_frames(root: &Widget, font: &Font, origin: Point) -> (result: Result<
    Vec<Vec<FillRect>>,
    WidgetError,
>)
    ensures
        pass_view(result) == frames_from(*root, font@, origin, 0),
{
    let total = root.frame_count();
    let mut frames: Vec<Vec<FillRect>> = Vec::new();
    let mut frame: u32 = 0;
    while frame < total
        invariant
            frame <= total,
            total == root.frames(),
            frames.len() == frame,
            match frames_from(*root, font@, origin, frame as nat) {
                Ok(rest) => frames_from(*root, font@, origin, 0) == Ok::<
                    Seq<Seq<FillRect>>,
                    WidgetError,
                >(frame_views(frames@) + rest),
                Err(e) => frames_from(*root, font@, origin, 0) == Err::<
                    Seq<Seq<FillRect>>,
                    WidgetError,
                >(e),
            },
        decreases total - frame,
    {
        match root.render(font, origin, frame) {
            Ok(ops) => {
                proof {
                    let rest = frames_from(*root, font@, origin, (frame + 1) as nat);
                    if rest is Ok {
                        assert(frame_views(frames@.push(ops)) + rest->Ok_0 == frame_views(frames@) + (
                        seq![ops@] + rest->Ok_0));
                    }
                }
                frames.push(ops);
            },
            Err(e) => {
                return Err(e);
            },
        }
        frame = frame + 1;
    }
    proof {
        assert(frame_views(frames@) + Seq::<Seq<FillRect>>::empty() == frame_views(frames@));
    }
    Ok(frames)
}

} // verus!
