use panel_widgets::geometry::{FillRect, Point, Rgb, WidgetError};
use panel_widgets::image::{draw_ascii, Shades};
use panel_widgets::pusher::{delivered, push_request};

const LIGHT: Rgb = Rgb { r: 200, g: 200, b: 200 };
const DARKER: Rgb = Rgb { r: 100, g: 100, b: 100 };
const DARKEST: Rgb = Rgb { r: 50, g: 50, b: 50 };

fn shades() -> Shades {
    Shades { color: LIGHT, darker: DARKER, darkest: DARKEST }
}

fn cell(x: i64, y: i64, color: Rgb) -> FillRect {
    FillRect { x, y, width: 1, height: 1, color }
}

#[test]
fn picture_paints_one_cell_per_mark() {
    let ops = draw_ascii("#-*", Point { x: 3, y: 4 }, shades()).unwrap();
    assert_eq!(ops, vec![cell(3, 4, LIGHT), cell(4, 4, DARKER), cell(5, 4, DARKEST)]);
}

#[test]
fn other_characters_take_a_column_and_paint_nothing() {
    let ops = draw_ascii(" # .#", Point { x: 0, y: 0 }, shades()).unwrap();
    assert_eq!(ops, vec![cell(1, 0, LIGHT), cell(4, 0, LIGHT)]);
}

#[test]
fn line_feed_starts_the_next_row() {
    let ops = draw_ascii("#\n-#\n\n *", Point { x: 10, y: 20 }, shades()).unwrap();
    assert_eq!(
        ops,
        vec![cell(10, 20, LIGHT), cell(10, 21, DARKER), cell(11, 21, LIGHT), cell(11, 23, DARKEST)]
    );
}

#[test]
fn carriage_return_before_a_line_feed_paints_nothing() {
    let ops = draw_ascii("#\r\n#", Point { x: 0, y: 0 }, shades()).unwrap();
    assert_eq!(ops, vec![cell(0, 0, LIGHT), cell(0, 1, LIGHT)]);
}

#[test]
fn empty_picture_paints_nothing() {
    assert_eq!(draw_ascii("", Point { x: 0, y: 0 }, shades()), Ok(vec![]));
    assert_eq!(draw_ascii("\n\n", Point { x: 0, y: 0 }, shades()), Ok(vec![]));
}

#[test]
fn painted_cell_beyond_the_coordinates_fails() {
    let edge = Point { x: i64::MAX, y: 0 };
    assert_eq!(draw_ascii("# ", edge, shades()).unwrap().len(), 1);
    assert_eq!(draw_ascii(" #", edge, shades()), Err(WidgetError::DistributionOverflow));
    let bottom = Point { x: 0, y: i64::MAX };
    assert_eq!(draw_ascii("#\n ", bottom, shades()).unwrap().len(), 1);
    assert_eq!(draw_ascii("\n#", bottom, shades()), Err(WidgetError::DistributionOverflow));
}

#[test]
fn request_names_the_device_and_carries_the_image() {
    let request = push_request("my-device", b"hello");
    assert_eq!(request.endpoint, "https://api.tidbyt.com/v0/devices/my-device/push");
    assert_eq!(request.device_id, "my-device");
    assert_eq!(request.installation_id, "custom");
    assert_eq!(request.image, "aGVsbG8=");
    assert!(request.background);
}

#[test]
fn image_is_encoded_with_padding() {
    assert_eq!(push_request("d", b"").image, "");
    assert_eq!(push_request("d", b"a").image, "YQ==");
    assert_eq!(push_request("d", b"ab").image, "YWI=");
    assert_eq!(push_request("d", b"abc").image, "YWJj");
    assert_eq!(push_request("d", &[0xfb, 0xff]).image, "+/8=");
}

#[test]
fn only_two_hundred_counts_as_delivered() {
    assert!(delivered(200));
    assert!(!delivered(201));
    assert!(!delivered(404));
    assert!(!delivered(0));
}
