//! Images held as packed pixels: built from plain values, read from PNG
//! data, and lent to the rasteriser.

use crate::geometry::{
    is_coord, lemma_prepend_twice, ops_view, prepend, FillRect, Point, Rgb, WidgetError,
};
use crate::text::chars_of;
use vstd::prelude::*;

verus! {

/// `raqote::Image`, taken as a value that is only handed on.
#[verifier::external_type_specification]
#[verifier::external_body]
pub struct ExImage<'a>(raqote::Image<'a>);

/// The pixels that a borrowed image shows, row by row.
pub uninterp spec fn image_pixels(image: raqote::Image) -> Seq<u32>;

/// The width and the height that a borrowed image claims.
pub uninterp spec fn image_extent(image: raqote::Image) -> (int, int);

/// Builds a `raqote::Image`, a struct of three public fields. Trusted: the
/// image shows the pixels it was given and claims the extent it was given.
#[verifier::external_body]
fn borrow_image<'a>(width: i32, height: i32, data: &'a [u32]) -> (image: raqote::Image<'a>)
    ensures
        image_pixels(image) == data@,
        image_extent(image) == (width as int, height as int),
{
    raqote::Image { width, height, data }
}

/// Why PNG data could not be read.
#[derive(Clone, Copy, Debug, PartialEq, Eq, Structural)]
pub enum ImageError {
    /// The data before the first image chunk could not be decoded.
    Info,
    /// The first frame could not be decoded.
    Frame,
    /// The decoded bytes do not make up whole four-byte pixels.
    Ragged,
}

/// What the `png` crate decodes from `data`: the width and the height of the
/// image and the bytes of its first frame, or the step that failed.
pub uninterp spec fn png_frame(data: Seq<u8>) -> Result<(u32, u32, Seq<u8>), ImageError>;

/// `png::Decoder::new`, `Decoder::read_info`, `Reader::output_buffer_size`,
/// `Reader::next_frame` and `Reader::info`, in that order, on data held in
/// memory, with the decoder's default limits. Trusted: given the memory it
/// asks for, the decoder returns on every input, and what it returns depends
/// on the data alone. `Info` is a failure of `read_info`, `Frame` one of
/// `next_frame`; the width and the height are those of the image header.
#[verifier::external_body]
fn decode_png(data: &[u8]) -> (frame: Result<(u32, u32, Vec<u8>), ImageError>)
    ensures
        match frame {
            Ok((width, height, bytes)) => png_frame(data@) == Ok::<
                (u32, u32, Seq<u8>),
                ImageError,
            >((width, height, bytes@)),
            Err(e) => png_frame(data@) == Err::<(u32, u32, Seq<u8>), ImageError>(e),
        },
{
    let mut reader = match png::Decoder::new(data).read_info() {
        Ok(reader) => reader,
        Err(_) => return Err(ImageError::Info),
    };
    let mut bytes = vec![0; reader.output_buffer_size()];
    match reader.next_frame(&mut bytes) {
        Ok(_) => {
            let info = reader.info();
            Ok((info.width, info.height, bytes))
        },
        Err(_) => Err(ImageError::Frame),
    }
}

/// Four bytes as one pixel, the first byte highest.
pub open spec fn packed_pixel(b0: u8, b1: u8, b2: u8, b3: u8) -> u32 {
    ((b0 as u32) << 24) | ((b1 as u32) << 16) | ((b2 as u32) << 8) | (b3 as u32)
}

/// The pixels that `bytes` make up, four bytes each. Bytes after the last
/// whole pixel are left out.
pub open spec fn packed(bytes: Seq<u8>) -> Seq<u32> {
    Seq::new(
        bytes.len() / 4,
        |i: int| packed_pixel(bytes[4 * i], bytes[4 * i + 1], bytes[4 * i + 2], bytes[4 * i + 3]),
    )
}

/// Packs bytes into pixels, four bytes each, the first byte highest.
pub fn pack_pixels(bytes: &Vec<u8>) -> (pixels: Vec<u32>)
    requires
        bytes.len() % 4 == 0,
    ensures
        pixels@ == packed(bytes@),
{
    let mut pixels: Vec<u32> = Vec::new();
    let mut i: usize = 0;
    while i < bytes.len()
        invariant
            i <= bytes.len(),
            i % 4 == 0,
            bytes.len() % 4 == 0,
            pixels@.len() == i / 4,
            forall|k: int| 0 <= k < pixels@.len() ==> pixels@[k] == #[trigger] packed(bytes@)[k],
        decreases bytes.len() - i,
    {
        let b0 = bytes[i];
        let b1 = bytes[i + 1];
        let b2 = bytes[i + 2];
        let b3 = bytes[i + 3];
        let pixel: u32 = ((b0 as u32) << 24) | ((b1 as u32) << 16) | ((b2 as u32) << 8) | (b3 as u32);
        pixels.push(pixel);
        i = i + 4;
    }
    pixels
}

/// What an image is: the extent it claims and its pixels, row by row.
pub struct OwnedImageView {
    pub width: i32,
    pub height: i32,
    pub data: Seq<u32>,
}

/// An image that owns its pixels.
#[derive(Debug)]
pub struct OwnedImage {
    width: i32,
    height: i32,
    data: Vec<u32>,
}

impl View for OwnedImage {
    type V = OwnedImageView;

    closed spec fn view(&self) -> OwnedImageView {
        OwnedImageView { width: self.width, height: self.height, data: self.data@ }
    }
}

/// The image that a decoded frame makes: the width and the height cast to
/// `i32`, and the bytes packed into pixels.
pub open spec fn image_of(width: u32, height: u32, bytes: Seq<u8>) -> OwnedImageView {
    OwnedImageView { width: width as i32, height: height as i32, data: packed(bytes) }
}

/// What reading PNG data gives: the image of the first frame, or why there is
/// none.
pub open spec fn read_image_spec(data: Seq<u8>) -> Result<OwnedImageView, ImageError> {
    match png_frame(data) {
        Err(e) => Err(e),
        Ok((width, height, bytes)) => if bytes.len() % 4 == 0 {
            Ok(image_of(width, height, bytes))
        } else {
            Err(ImageError::Ragged)
        },
    }
}

impl OwnedImage {
    /// An image of the given extent and pixels. Nothing is asked of how the
    /// two fit together.
    pub fn new(width: i32, height: i32, data: Vec<u32>) -> (image: Self)
        ensures
            image@ == (OwnedImageView { width, height, data: data@ }),
    {
        Self { width, height, data }
    }

    /// The width that the image claims.
    pub fn width(&self) -> (width: i32)
        ensures
            width == self@.width,
    {
        self.width
    }

    /// The height that the image claims.
    pub fn height(&self) -> (height: i32)
        ensures
            height == self@.height,
    {
        self.height
    }

    /// The pixels of the image, row by row.
    pub fn pixels(&self) -> (data: &Vec<u32>)
        ensures
            data@ == self@.data,
    {
        &self.data
    }

    /// The image as the rasteriser takes it, borrowing the pixels.
    pub fn raqote_image(&self) -> (image: raqote::Image<'_>)
        ensures
            image_pixels(image) == self@.data,
            image_extent(image) == (self@.width as int, self@.height as int),
    {
        borrow_image(self.width, self.height, self.data.as_slice())
    }

    /// The image of a decoded frame.
    pub fn from_frame(width: u32, height: u32, bytes: &Vec<u8>) -> (image: Self)
        requires
            bytes.len() % 4 == 0,
        ensures
            image@ == image_of(width, height, bytes@),
    {
        Self::new(
            #[verifier::truncate]
            (width as i32),
            #[verifier::truncate]
            (height as i32),
            pack_pixels(bytes),
        )
    }
}

/// Reads the first frame of PNG data into an image. Data whose decoded bytes
/// do not make up whole pixels fails with `Ragged`.
pub fn read_image(data: &[u8]) -> (result: Result<OwnedImage, ImageError>)
    ensures
        match result {
            Ok(image) => read_image_spec(data@) == Ok::<OwnedImageView, ImageError>(image@),
            Err(e) => read_image_spec(data@) == Err::<OwnedImageView, ImageError>(e),
        },
{
    match decode_png(data) {
        Err(e) => Err(e),
        Ok((width, height, bytes)) => {
            if bytes.len() % 4 == 0 {
                Ok(OwnedImage::from_frame(width, height, &bytes))
            } else {
                Err(ImageError::Ragged)
            }
        },
    }
}

/// The three colours of a picture drawn from characters.
#[derive(Clone, Copy, Debug, PartialEq, Eq, Structural)]
pub struct Shades {
    /// The colour of `#`.
    pub color: Rgb,
    /// The colour of `-`.
    pub darker: Rgb,
    /// The colour of `*`.
    pub darkest: Rgb,
}

impl Shades {
    /// The colour that a character paints its cell with, if any.
    pub open spec fn of(self, c: char) -> Option<Rgb> {
        if c == '#' {
            Some(self.color)
        } else if c == '-' {
            Some(self.darker)
        } else if c == '*' {
            Some(self.darkest)
        } else {
            None
        }
    }
}

/// The steps that draw a picture from the `i`-th of its characters on, when
/// that character stands in column `column` of row `row`. A line feed starts
/// the next row; every other character takes one column, and `#`, `-` and `*`
/// paint their cell. A painted cell at a position that no coordinate can hold
/// fails with `DistributionOverflow`.
pub open spec fn ascii_ops(
    chars: Seq<char>,
    i: nat,
    start: Point,
    column: int,
    row: int,
    shades: Shades,
) -> Result<Seq<FillRect>, WidgetError>
    decreases chars.len() - i,
{
    if i >= chars.len() {
        Ok(Seq::empty())
    } else if chars[i as int] == '\n' {
        ascii_ops(chars, i + 1, start, 0, row + 1, shades)
    } else {
        match shades.of(chars[i as int]) {
            None => ascii_ops(chars, i + 1, start, column + 1, row, shades),
            Some(color) => {
                let x = start.x + column;
                let y = start.y + row;
                if is_coord(x) && is_coord(y) {
                    prepend(
                        seq![FillRect { x: x as i64, y: y as i64, width: 1, height: 1, color }],
                        ascii_ops(chars, i + 1, start, column + 1, row, shades),
                    )
                } else {
                    Err(WidgetError::DistributionOverflow)
                }
            },
        }
    }
}

/// Draws a picture given as lines of characters, one cell per character,
/// with its top-left cell at `start`, and returns the steps in drawing order.
pub fn draw_ascii(text: &str, start: Point, shades: Shades) -> (result: Result<
    Vec<FillRect>,
    WidgetError,
>)
    ensures
        ops_view(result) == ascii_ops(text@, 0, start, 0, 0, shades),
{
    let chars = chars_of(text);
    let ghost all = ascii_ops(chars@, 0, start, 0, 0, shades);
    let mut ops: Vec<FillRect> = Vec::new();
    let mut column: usize = 0;
    let mut row: usize = 0;
    let mut i: usize = 0;
    proof {
        lemma_prepend_twice(ops@, Seq::empty(), all);
    }
    while i < chars.len()
        invariant
            i <= chars.len(),
            chars@ == text@,
            column <= i,
            row <= i,
            all == ascii_ops(chars@, 0, start, 0, 0, shades),
            all == prepend(ops@, ascii_ops(chars@, i as nat, start, column as int, row as int, shades)),
        decreases chars.len() - i,
    {
        let c = chars[i];
        if c == '\n' {
            column = 0;
            row = row + 1;
        } else {
            let paint = if c == '#' {
                Some(shades.color)
            } else if c == '-' {
                Some(shades.darker)
            } else if c == '*' {
                Some(shades.darkest)
            } else {
                None
            };
            match paint {
                Some(color) => {
                    let x: i128 = start.x as i128 + column as i128;
                    let y: i128 = start.y as i128 + row as i128;
                    if x > i64::MAX as i128 || y > i64::MAX as i128 {
                        return Err(WidgetError::DistributionOverflow);
                    }
                    let step = FillRect { x: x as i64, y: y as i64, width: 1, height: 1, color };
                    proof {
                        lemma_prepend_twice(
                            ops@,
                            seq![step],
                            ascii_ops(chars@, (i + 1) as nat, start, column + 1, row as int, shades),
                        );
                    }
                    ops.push(step);
                },
                None => {},
            }
            column = column + 1;
        }
        i = i + 1;
    }
    proof {
        lemma_prepend_twice(ops@, Seq::empty(), Ok(Seq::empty()));
    }
    Ok(ops)
}

} // verus!
