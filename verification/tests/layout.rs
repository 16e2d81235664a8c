use panel_widgets::chart::ChartWidget;
use panel_widgets::font::{Font, Glyph};
use panel_widgets::geometry::{FillRect, Point, Rgb, Size, WidgetError};
use panel_widgets::layout::offsets;
use panel_widgets::text::TextWidget;
use panel_widgets::widget::{hstack, render_frames, vstack, HStack, VStack, Widget};

const WHITE: Rgb = Rgb { r: 255, g: 255, b: 255 };

/// A font whose only glyph, for `a`, fills the 1 by 1 box.
fn dot_font() -> Font {
    Font::new(1, 1, vec![('a', Glyph::new(1, 1, vec![true]).unwrap())]).unwrap()
}

fn cell(x: i64, y: i64) -> FillRect {
    FillRect { x, y, width: 1, height: 1, color: WHITE }
}

fn text(text: &str) -> Option<Widget> {
    Some(Widget::Text(TextWidget::new(String::from(text), String::from("#fff")).unwrap()))
}

fn xs(ops: &[FillRect]) -> Vec<i64> {
    ops.iter().map(|op| op.x).collect()
}

fn ys(ops: &[FillRect]) -> Vec<i64> {
    ops.iter().map(|op| op.y).collect()
}

#[test]
fn two_texts_of_eight_and_four_in_sixty_one() {
    let row = hstack(vec![text("aa"), text("a")]);
    let ops = row.render(&dot_font(), Point { x: 0, y: 0 }, 0).unwrap();
    assert_eq!(ops, vec![cell(0, 0), cell(4, 0), cell(57, 0)]);
    assert_eq!(offsets(61, &vec![8, 4]), vec![0, 57]);
}

#[test]
fn remainder_goes_to_the_last_gap() {
    let row = hstack(vec![text("a"), text("a"), text("a")]);
    let ops = row.render(&dot_font(), Point { x: 0, y: 0 }, 0).unwrap();
    assert_eq!(xs(&ops), vec![0, 28, 57]);
    assert_eq!(offsets(61, &vec![4, 4, 4]), vec![0, 28, 57]);
}

#[test]
fn row_ends_on_the_target_width() {
    let row = hstack(vec![text("a"), text("aa"), text("a"), text("aaa")]);
    let ops = row.render(&dot_font(), Point { x: 5, y: 9 }, 0).unwrap();
    // widths 4, 8, 4, 12; extra room 33 over 3 gaps: 11, 11, 11
    assert_eq!(xs(&ops), vec![5, 20, 24, 39, 54, 58, 62]);
    assert_eq!(ys(&ops), vec![9; 7]);
    let last_start = 54;
    assert_eq!(last_start + 12, 5 + 61);
}

#[test]
fn items_wider_than_the_row_overlap() {
    let ten = "aaaaaaaaaa";
    let row = hstack(vec![text(ten), text(ten)]);
    let ops = row.render(&dot_font(), Point { x: 0, y: 0 }, 0).unwrap();
    // widths 40 and 40: the only gap is -19, the second item starts at 21
    assert_eq!(ops.len(), 20);
    assert_eq!(ops[10].x, 21);
    assert_eq!(offsets(61, &vec![40, 40]), vec![0, 21]);
}

#[test]
fn negative_room_is_divided_rounding_down() {
    let eight = "aaaaaaaa";
    let row = hstack(vec![text(eight), text(eight), text(eight)]);
    let ops = row.render(&dot_font(), Point { x: 0, y: 0 }, 0).unwrap();
    // widths 32 each: extra room -35 over 2 gaps: -18, and -18 + 1
    assert_eq!(ops[8].x, 14);
    assert_eq!(ops[16].x, 29);
    assert_eq!(29 + 32, 61);
    assert_eq!(offsets(61, &vec![32, 32, 32]), vec![0, 14, 29]);
}

#[test]
fn exact_fit_leaves_no_gap() {
    assert_eq!(offsets(61, &vec![30, 31]), vec![0, 30]);
    assert_eq!(offsets(61, &vec![20, 20, 21]), vec![0, 20, 40]);
    assert_eq!(offsets(61, &vec![0, 0]), vec![0, 61]);
    assert_eq!(offsets(61, &vec![20, 20, 20]), vec![0, 20, 41]);
    assert_eq!(offsets(61, &vec![20, 21, 21]), vec![0, 19, 40]);
}

#[test]
fn fewer_than_two_items_have_no_gap() {
    assert_eq!(offsets(61, &vec![]), Vec::<i128>::new());
    assert_eq!(offsets(61, &vec![8]), vec![0]);
    assert_eq!(offsets(61, &vec![100]), vec![0]);
}

#[test]
fn widest_items_stay_in_range() {
    let starts = offsets(61, &vec![u32::MAX; 4]);
    let width = u32::MAX as i128;
    // the room is 61 - 4 * width over 3 gaps
    let base = (61 - 4 * width).div_euclid(3);
    let rest = (61 - 4 * width).rem_euclid(3);
    assert_eq!(starts, vec![0, width + base, 2 * (width + base), 3 * (width + base) + rest]);
    assert_eq!(starts[3] + width, 61);
}

#[test]
fn single_item_is_drawn_at_the_origin() {
    let row = hstack(vec![text("aa")]);
    let ops = row.render(&dot_font(), Point { x: 7, y: 3 }, 0).unwrap();
    assert_eq!(ops, vec![cell(7, 3), cell(11, 3)]);
}

#[test]
fn empty_row_draws_nothing() {
    let row = hstack(vec![]);
    assert_eq!(row.render(&dot_font(), Point { x: 0, y: 0 }, 0), Ok(vec![]));
    let column = vstack(vec![]);
    assert_eq!(column.render(&dot_font(), Point { x: 0, y: 0 }, 0), Ok(vec![]));
}

#[test]
fn containers_report_the_fixed_size() {
    let size = Size { width: 61, height: 5 };
    assert_eq!(hstack(vec![]).measure(), size);
    assert_eq!(hstack(vec![text("aaaaaaaaaaaaaaaaaaaaaaaa")]).measure(), size);
    assert_eq!(vstack(vec![text("a"), text("a")]).measure(), size);
    assert_eq!(Widget::HStack(hstack(vec![text("a")])).measure(), size);
    assert_eq!(Widget::VStack(vstack(vec![])).measure(), size);
}

#[test]
fn widget_measure_follows_the_leaf() {
    assert_eq!(text("a a").unwrap().measure(), Size { width: 10, height: 5 });
    let chart = Widget::Chart(ChartWidget::new(&vec![1, 2, 3]).unwrap());
    assert_eq!(chart.measure(), Size { width: 3, height: 5 });
}

#[test]
fn nested_row_counts_as_sixty_one_wide() {
    let inner = Widget::HStack(hstack(vec![text("a")]));
    let row = hstack(vec![Some(inner), text("a")]);
    let ops = row.render(&dot_font(), Point { x: 0, y: 0 }, 0).unwrap();
    // widths 61 and 4: the gap is -4, the second item starts at 57
    assert_eq!(xs(&ops), vec![0, 57]);
}

#[test]
fn column_steps_down_by_height_and_gap() {
    let column = vstack(vec![text("a"), text("a"), text("a")]).set_gap(3);
    let ops = column.render(&dot_font(), Point { x: 2, y: 2 }, 0).unwrap();
    assert_eq!(ops, vec![cell(2, 2), cell(2, 10), cell(2, 18)]);
}

#[test]
fn column_without_gap_steps_down_by_height() {
    let column = vstack(vec![text("a"), text("a")]);
    let ops = column.render(&dot_font(), Point { x: 0, y: 0 }, 0).unwrap();
    assert_eq!(ys(&ops), vec![0, 5]);
}

#[test]
fn column_of_rows() {
    let first = Widget::HStack(hstack(vec![text("a"), text("a")]));
    let second = Widget::HStack(hstack(vec![text("a")]));
    let column = vstack(vec![Some(first), Some(second)]).set_gap(3);
    let ops = column.render(&dot_font(), Point { x: 2, y: 2 }, 0).unwrap();
    assert_eq!(ops, vec![cell(2, 2), cell(59, 2), cell(2, 10)]);
}

#[test]
fn missing_children_are_left_out() {
    let row = hstack(vec![None, text("a"), None, text("aa"), None]);
    assert_eq!(row.items.len(), 2);
    assert_eq!(row.gap, 0);
    assert!(!row.expand);
    assert_eq!(row.items[0].measure().width, 4);
    assert_eq!(row.items[1].measure().width, 8);
    let column = vstack(vec![None, None]);
    assert_eq!(column.items.len(), 0);
    assert_eq!(column.gap, 0);
}

#[test]
fn setters_change_one_field() {
    let row = hstack(vec![text("a")]).set_gap(4).set_expand(true);
    assert_eq!(row.gap, 4);
    assert!(row.expand);
    assert_eq!(row.items.len(), 1);
    let column = vstack(vec![text("a")]).set_gap(-2);
    assert_eq!(column.gap, -2);
    assert_eq!(column.items.len(), 1);
}

#[test]
fn row_gap_field_does_not_move_the_items() {
    let plain = hstack(vec![text("a"), text("a")]);
    let gapped = hstack(vec![text("a"), text("a")]).set_gap(9).set_expand(true);
    let font = dot_font();
    let origin = Point { x: 0, y: 0 };
    assert_eq!(plain.render(&font, origin, 0), gapped.render(&font, origin, 0));
}

#[test]
fn frame_count_is_one_without_children() {
    assert_eq!(hstack(vec![]).frame_count(), 1);
    assert_eq!(vstack(vec![]).frame_count(), 1);
    assert_eq!(Widget::HStack(HStack { items: vec![], gap: 0, expand: false }).frame_count(), 1);
    assert_eq!(Widget::VStack(VStack { items: vec![], gap: 0 }).frame_count(), 1);
}

#[test]
fn frame_count_is_the_largest_of_the_children() {
    let row = hstack(vec![text("a"), text("a")]);
    assert_eq!(row.frame_count(), 1);
    let column = vstack(vec![Some(Widget::HStack(row)), text("a")]);
    assert_eq!(column.frame_count(), 1);
    assert_eq!(text("a").unwrap().frame_count(), 1);
}

#[test]
fn child_failure_ends_the_row() {
    let bad = Some(Widget::Text(TextWidget::new(String::from("a"), String::from("nope")).unwrap()));
    let row = hstack(vec![text("a"), bad, text("z")]);
    assert_eq!(row.render(&dot_font(), Point { x: 0, y: 0 }, 0), Err(WidgetError::InvalidColor));
}

#[test]
fn first_failure_wins() {
    let bad = Some(Widget::Text(TextWidget::new(String::from("a"), String::from("nope")).unwrap()));
    let row = hstack(vec![text("z"), bad]);
    assert_eq!(row.render(&dot_font(), Point { x: 0, y: 0 }, 0), Err(WidgetError::GlyphNotFound));
}

#[test]
fn child_beyond_the_coordinates_fails() {
    let row = hstack(vec![text("a"), text("a")]);
    let result = row.render(&dot_font(), Point { x: i64::MAX - 10, y: 0 }, 0);
    assert_eq!(result, Err(WidgetError::DistributionOverflow));
    let column = vstack(vec![text("a"), text("a")]).set_gap(i64::MAX);
    let result = column.render(&dot_font(), Point { x: 0, y: 0 }, 0);
    assert_eq!(result, Err(WidgetError::DistributionOverflow));
}

#[test]
fn pass_has_one_list_per_frame() {
    let root = Widget::VStack(vstack(vec![text("a"), text("a")]).set_gap(3));
    let frames = render_frames(&root, &dot_font(), Point { x: 2, y: 2 }).unwrap();
    assert_eq!(frames, vec![vec![cell(2, 2), cell(2, 10)]]);
}

#[test]
fn unreadable_color_leaves_no_frame() {
    let bad = Widget::Text(TextWidget::new(String::from("a"), String::from("#ggg")).unwrap());
    let root = Widget::VStack(vstack(vec![Some(bad)]));
    let result = render_frames(&root, &dot_font(), Point { x: 2, y: 2 });
    assert_eq!(result, Err(WidgetError::InvalidColor));
}

#[test]
fn every_row_of_two_or_more_ends_on_sixty_one() {
    let font = dot_font();
    for first in 0..6usize {
        for second in 0..6usize {
            for third in 0..20usize {
                let texts = [first, second, third];
                for count in 2..=3usize {
                    let children: Vec<Option<Widget>> =
                        texts[..count].iter().map(|n| text(&"a".repeat(*n))).collect();
                    let last_width = 4 * texts[count - 1] as i64;
                    let row = hstack(children);
                    let ops = row.render(&font, Point { x: 100, y: 0 }, 0).unwrap();
                    if texts[count - 1] > 0 {
                        let last_start = ops[ops.len() - texts[count - 1]].x;
                        assert_eq!(last_start + last_width, 100 + 61);
                    }
                    if texts[0] > 0 {
                        assert_eq!(ops[0].x, 100);
                    }
                }
            }
        }
    }
}

#[test]
fn gaps_share_the_room_and_the_last_takes_the_rest() {
    for width in 0..40u32 {
        for count in 2..9usize {
            let widths = vec![width; count];
            let starts = offsets(61, &widths);
            let gaps: Vec<i128> =
                (1..count).map(|i| starts[i] - starts[i - 1] - width as i128).collect();
            let room = 61 - (width as i128) * count as i128;
            let base = room.div_euclid(count as i128 - 1);
            let sum: i128 = gaps.iter().sum();
            assert_eq!(sum, room);
            assert!(gaps.iter().all(|gap| *gap >= base));
            assert!(gaps[..gaps.len() - 1].iter().all(|gap| *gap == base));
            let rest = gaps[gaps.len() - 1] - base;
            assert!(0 <= rest && rest < count as i128 - 1);
            assert_eq!(starts[count - 1] + width as i128, 61);
        }
    }
}
