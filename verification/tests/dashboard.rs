use panel_widgets::dashboard::{
    aqi_widget, chart, dashboard, label, mail_label, push_decimal, push_signed_decimal, recent,
    render_panel, uv_widget, weather_label, weather_widget, Skipped,
};
use panel_widgets::text::TextWidget;
use panel_widgets::font::{Font, Glyph};
use panel_widgets::geometry::{FillRect, Rgb};
use panel_widgets::widget::Widget;

fn written(n: u64) -> String {
    let mut out = String::new();
    push_decimal(&mut out, n);
    out
}

fn written_signed(n: i64) -> String {
    let mut out = String::new();
    push_signed_decimal(&mut out, n);
    out
}

fn text_of(widget: &TextWidget) -> (String, String) {
    (String::from(widget.text()), String::from(widget.color()))
}

#[test]
fn numbers_are_written_in_decimal() {
    assert_eq!(written(0), "0");
    assert_eq!(written(7), "7");
    assert_eq!(written(10), "10");
    assert_eq!(written(1234567890), "1234567890");
    assert_eq!(written(u64::MAX), "18446744073709551615");
}

#[test]
fn decimal_is_appended() {
    let mut out = String::from("n=");
    push_decimal(&mut out, 42);
    assert_eq!(out, "n=42");
}

#[test]
fn negative_numbers_carry_a_sign() {
    assert_eq!(written_signed(0), "0");
    assert_eq!(written_signed(-1), "-1");
    assert_eq!(written_signed(-40), "-40");
    assert_eq!(written_signed(72), "72");
    assert_eq!(written_signed(i64::MIN), "-9223372036854775808");
    assert_eq!(written_signed(i64::MAX), "9223372036854775807");
}

#[test]
fn labels_are_worded() {
    assert_eq!(mail_label(0), "0 MAIL");
    assert_eq!(mail_label(12), "12 MAIL");
    assert_eq!(weather_label(72), "72\u{b0}");
    assert_eq!(weather_label(-5), "-5\u{b0}");
}

#[test]
fn label_is_a_text_widget() {
    let widget = label(String::from("12 MAIL"), "#fff").unwrap();
    assert_eq!(text_of(&widget), (String::from("12 MAIL"), String::from("#fff")));
}

#[test]
fn chart_is_a_chart_widget() {
    assert_eq!(chart(&vec![1, 2, 3]).unwrap().data(), &vec![1, 2, 3]);
}

#[test]
fn weather_is_shown_in_degrees() {
    let widget = weather_widget(72).unwrap();
    assert_eq!(text_of(&widget), (String::from("72\u{b0}"), String::from("#fff")));
    let widget = weather_widget(-12).unwrap();
    assert_eq!(text_of(&widget), (String::from("-12\u{b0}"), String::from("#fff")));
    let widget = weather_widget(i32::MIN).unwrap();
    assert_eq!(widget.text(), "-2147483648\u{b0}");
}

#[test]
fn ultraviolet_below_five_is_not_shown() {
    assert_eq!(uv_widget(&vec![0, 4, 2]).err(), Some(Skipped::Normal));
    assert_eq!(uv_widget(&vec![-3]).err(), Some(Skipped::Normal));
}

#[test]
fn ultraviolet_without_readings_is_missing() {
    assert_eq!(uv_widget(&vec![]).err(), Some(Skipped::Missing));
}

#[test]
fn ultraviolet_shows_the_peak() {
    let widget = uv_widget(&vec![1, 7, 3]).unwrap();
    assert_eq!(text_of(&widget), (String::from("7 UV"), String::from("#ffb537")));
    let widget = uv_widget(&vec![5]).unwrap();
    assert_eq!(text_of(&widget), (String::from("5 UV"), String::from("#ffb537")));
    let widget = uv_widget(&vec![9, 2]).unwrap();
    assert_eq!(text_of(&widget), (String::from("9 UV"), String::from("#ffb537")));
    let widget = uv_widget(&vec![2, 3, 11]).unwrap();
    assert_eq!(text_of(&widget), (String::from("11 UV"), String::from("#ff3838")));
    let widget = uv_widget(&vec![10]).unwrap();
    assert_eq!(text_of(&widget), (String::from("10 UV"), String::from("#ff3838")));
}

#[test]
fn air_quality_is_shown_in_tens() {
    let widget = aqi_widget(10).unwrap();
    assert_eq!(text_of(&widget), (String::from("10 AQI"), String::from("#ffb537")));
    let widget = aqi_widget(11).unwrap();
    assert_eq!(text_of(&widget), (String::from("11 AQI"), String::from("#ff3838")));
    let widget = aqi_widget(30).unwrap();
    assert_eq!(text_of(&widget), (String::from("30 AQI"), String::from("#ff3838")));
    let widget = aqi_widget(5).unwrap();
    assert_eq!(text_of(&widget), (String::from("5 AQI"), String::from("#ffb537")));
    let widget = aqi_widget(4).unwrap();
    assert_eq!(text_of(&widget), (String::from("4 AQI"), String::from("#92dd67")));
    let widget = aqi_widget(u64::MAX).unwrap();
    assert_eq!(text_of(&widget).1, "#ff3838");
}

#[test]
fn recent_keeps_the_last_readings_in_order() {
    let all: Vec<u64> = (1..=12).collect();
    assert_eq!(recent(&all, 10), vec![3, 4, 5, 6, 7, 8, 9, 10, 11, 12]);
    assert_eq!(recent(&vec![4, 5], 10), vec![4, 5]);
    assert_eq!(recent(&vec![], 10), Vec::<u64>::new());
    assert_eq!(recent(&vec![1, 2, 3], 0), Vec::<u64>::new());
    assert_eq!(recent(&vec![1, 2, 3], 3), vec![1, 2, 3]);
}

#[test]
fn panel_has_four_rows_three_apart() {
    let root = dashboard(
        None,
        label(String::from("9:41"), "#fff"),
        label(mail_label(3), "#fff"),
        chart(&vec![1, 2]),
        label(String::from("5 RUN"), "#fff"),
        chart(&vec![]),
        None,
        None,
    );
    let column = match root {
        Widget::VStack(v) => v,
        _ => panic!("no column"),
    };
    assert_eq!(column.gap, 3);
    assert_eq!(column.items.len(), 4);
    let lens: Vec<usize> = column
        .items
        .iter()
        .map(|row| match row {
            Widget::HStack(h) => h.items.len(),
            _ => panic!("no row"),
        })
        .collect();
    assert_eq!(lens, vec![1, 2, 2, 0]);
    match &column.items[1] {
        Widget::HStack(h) => {
            match &h.items[0] {
                Widget::Text(t) => assert_eq!(t.text(), "3 MAIL"),
                _ => panic!("no text"),
            }
            assert_eq!(h.items[1].measure().width, 2);
        },
        _ => panic!("no row"),
    }
}

#[test]
fn panel_is_drawn_inside_the_margin() {
    let font = Font::new(1, 1, vec![('a', Glyph::new(1, 1, vec![true]).unwrap())]).unwrap();
    let root = dashboard(
        label(String::from("a"), "#fff"),
        label(String::from("a"), "#fff"),
        None,
        None,
        label(String::from("a"), "#fff"),
        None,
        None,
        None,
    );
    let frames = render_panel(&root, &font).unwrap();
    let white = Rgb { r: 255, g: 255, b: 255 };
    let cell = |x: i64, y: i64| FillRect { x, y, width: 1, height: 1, color: white };
    assert_eq!(frames, vec![vec![cell(2, 2), cell(59, 2), cell(2, 18)]]);
}
