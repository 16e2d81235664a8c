use panel_widgets::draw_buffer::{get_rgba, unpremultiply};
use panel_widgets::image::{pack_pixels, read_image, ImageError, OwnedImage};

fn png_of(width: u32, height: u32, color: png::ColorType, data: &[u8]) -> Vec<u8> {
    let mut bytes = Vec::new();
    {
        let mut encoder = png::Encoder::new(&mut bytes, width, height);
        encoder.set_color(color);
        encoder.set_depth(png::BitDepth::Eight);
        let mut writer = encoder.write_header().unwrap();
        writer.write_image_data(data).unwrap();
    }
    bytes
}

#[test]
fn half_transparent_pixel_is_divided_out() {
    assert_eq!(unpremultiply(&vec![0x8040_2010]), vec![127, 63, 31, 128]);
}

#[test]
fn opaque_pixel_keeps_its_channels() {
    assert_eq!(unpremultiply(&vec![0xff12_3456]), vec![0x12, 0x34, 0x56, 0xff]);
}

#[test]
fn transparent_pixel_is_all_zero() {
    assert_eq!(unpremultiply(&vec![0]), vec![0, 0, 0, 0]);
    assert_eq!(unpremultiply(&vec![0x00ff_ffff]), vec![0, 0, 0, 0]);
}

#[test]
fn pixels_keep_their_order() {
    let out = unpremultiply(&vec![0xff01_0203, 0, 0xff04_0506]);
    assert_eq!(out, vec![1, 2, 3, 255, 0, 0, 0, 0, 4, 5, 6, 255]);
    assert_eq!(unpremultiply(&vec![]), Vec::<u8>::new());
}

#[test]
fn channel_above_its_alpha_is_cut_to_a_byte() {
    // 0x20 * 255 / 0x10 = 510, of which the low byte is 254
    assert_eq!(unpremultiply(&vec![0x1020_0000]), vec![254, 0, 0, 16]);
}

#[test]
fn round_trip_stays_within_one() {
    for a in 1u32..=255 {
        for c in 0..=a {
            let out = unpremultiply(&vec![(a << 24) | (c << 16)]);
            let back = out[0] as u32 * a / 255;
            assert!(back == c || back + 1 == c);
            assert_eq!(out[3] as u32, a);
        }
    }
}

#[test]
fn fresh_target_is_transparent() {
    let out = get_rgba(raqote::DrawTarget::new(4, 2));
    assert_eq!(out, vec![0; 32]);
}

#[test]
fn target_pixels_come_out_in_row_order() {
    let mut target = raqote::DrawTarget::new(2, 2);
    target.get_data_mut()[1] = 0xff00_00ff;
    target.get_data_mut()[2] = 0x8040_2010;
    let out = get_rgba(target);
    assert_eq!(out, vec![0, 0, 0, 0, 0, 0, 255, 255, 127, 63, 31, 128, 0, 0, 0, 0]);
}

#[test]
fn filled_cell_comes_out_opaque() {
    let mut target = raqote::DrawTarget::new(2, 1);
    let source = raqote::Source::Solid(raqote::SolidSource::from_unpremultiplied_argb(255, 10, 20, 30));
    target.fill_rect(1.0, 0.0, 1.0, 1.0, &source, &raqote::DrawOptions::new());
    assert_eq!(get_rgba(target), vec![0, 0, 0, 0, 10, 20, 30, 255]);
}

#[test]
fn bytes_pack_first_byte_highest() {
    assert_eq!(pack_pixels(&vec![1, 2, 3, 4, 0xaa, 0xbb, 0xcc, 0xdd]), vec![0x0102_0304, 0xaabb_ccdd]);
    assert_eq!(pack_pixels(&vec![]), Vec::<u32>::new());
}

#[test]
fn image_keeps_what_it_was_given() {
    let image = OwnedImage::new(2, 1, vec![7, 9]);
    assert_eq!(image.width(), 2);
    assert_eq!(image.height(), 1);
    assert_eq!(image.pixels(), &vec![7, 9]);
    let odd = OwnedImage::new(-3, 100, vec![]);
    assert_eq!(odd.width(), -3);
    assert_eq!(odd.height(), 100);
}

#[test]
fn borrowed_image_shows_the_same_pixels() {
    let image = OwnedImage::new(2, 1, vec![7, 9]);
    let borrowed = image.raqote_image();
    assert_eq!(borrowed.width, 2);
    assert_eq!(borrowed.height, 1);
    assert_eq!(borrowed.data, &[7, 9]);
}

#[test]
fn frame_becomes_an_image() {
    let image = OwnedImage::from_frame(1, 2, &vec![1, 2, 3, 4, 5, 6, 7, 8]);
    assert_eq!(image.width(), 1);
    assert_eq!(image.height(), 2);
    assert_eq!(image.pixels(), &vec![0x0102_0304, 0x0506_0708]);
}

#[test]
fn png_is_read_into_an_image() {
    let data = png_of(2, 1, png::ColorType::Rgba, &[1, 2, 3, 4, 250, 251, 252, 253]);
    let image = read_image(&data).unwrap();
    assert_eq!(image.width(), 2);
    assert_eq!(image.height(), 1);
    assert_eq!(image.pixels(), &vec![0x0102_0304, 0xfafb_fcfd]);
}

#[test]
fn png_without_whole_pixels_is_ragged() {
    let data = png_of(1, 1, png::ColorType::Rgb, &[1, 2, 3]);
    assert_eq!(read_image(&data).err(), Some(ImageError::Ragged));
}

#[test]
fn data_that_is_no_png_has_no_info() {
    assert_eq!(read_image(b"not a png").err(), Some(ImageError::Info));
    assert_eq!(read_image(&[]).err(), Some(ImageError::Info));
}

#[test]
fn png_cut_short_has_no_frame() {
    let data = png_of(2, 2, png::ColorType::Rgba, &[9; 16]);
    let idat = data.windows(4).position(|w| w == b"IDAT").unwrap();
    let cut = &data[..idat + 6];
    assert_eq!(read_image(cut).err(), Some(ImageError::Frame));
}
