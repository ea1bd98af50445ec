//! Colors and the pixel buffer.
//!
//! A [`Color`] has four fixed-point channels, nominally in the unit interval.
//! An [`Image`] stores four bytes per pixel, row by row, and can be encoded
//! as a PNG byte stream.

use crate::fixed::div_floor;
use crate::fixed::Fixed;
use crate::fixed::SCALE;
use vstd::prelude::*;
use vstd::string::StringExecFns;

verus! {

/// Numerator of the channel value that the byte `b` stands for: `b / 255`,
/// rounded up so that converting back gives `b` again.
pub open spec fn byte_to_raw(b: u8) -> int {
    (b as int * 65536 + 254) / 255
}

/// The byte that stores a channel: `255` times the value, rounded down and
/// clamped to the range of a byte.
pub open spec fn raw_to_byte(raw: int) -> u8 {
    let scaled = (raw * 255) / 65536;
    if scaled < 0 {
        0u8
    } else if scaled > 255 {
        255u8
    } else {
        scaled as u8
    }
}

/// A byte survives the conversion to a channel and back.
pub proof fn lemma_byte_round_trip(b: u8)
    ensures
        raw_to_byte(byte_to_raw(b)) == b,
{
}

/// Weight of the red channel in the luminance, about `0.299`.
pub const LUMA_RED: i32 = 19595;

/// Weight of the green channel in the luminance, about `0.587`.
pub const LUMA_GREEN: i32 = 38470;

/// Weight of the blue channel in the luminance, about `0.114`.
pub const LUMA_BLUE: i32 = 7471;

/// The four bytes of a stored pixel.
#[derive(Clone, Copy, Debug, PartialEq, Eq, Structural)]
pub struct Pixel {
    pub r: u8,
    pub g: u8,
    pub b: u8,
    pub a: u8,
}

/// A color with an opacity.
#[derive(Clone, Copy, Debug, PartialEq, Eq, Structural)]
pub struct Color {
    pub r: Fixed,
    pub g: Fixed,
    pub b: Fixed,
    pub a: Fixed,
}

/// The lower-case hexadecimal digit of `d`.
pub open spec fn hex_digit(d: int) -> char {
    if d == 0 {
        '0'
    } else if d == 1 {
        '1'
    } else if d == 2 {
        '2'
    } else if d == 3 {
        '3'
    } else if d == 4 {
        '4'
    } else if d == 5 {
        '5'
    } else if d == 6 {
        '6'
    } else if d == 7 {
        '7'
    } else if d == 8 {
        '8'
    } else if d == 9 {
        '9'
    } else if d == 10 {
        'a'
    } else if d == 11 {
        'b'
    } else if d == 12 {
        'c'
    } else if d == 13 {
        'd'
    } else if d == 14 {
        'e'
    } else {
        'f'
    }
}

/// The two hexadecimal digits of a byte.
pub open spec fn hex_byte(b: u8) -> Seq<char> {
    seq![hex_digit(b as int / 16), hex_digit(b as int % 16)]
}

/// A hash sign followed by the hexadecimal digits of three bytes.
pub open spec fn hex_triplet(r: u8, g: u8, b: u8) -> Seq<char> {
    seq!['#'] + hex_byte(r) + hex_byte(g) + hex_byte(b)
}

fn hex_digit_str(d: u8) -> (s: &'static str)
    requires
        d < 16,
    ensures
        s@ == seq![hex_digit(d as int)],
{
    proof {
        reveal_strlit("0");
        reveal_strlit("1");
        reveal_strlit("2");
        reveal_strlit("3");
        reveal_strlit("4");
        reveal_strlit("5");
        reveal_strlit("6");
        reveal_strlit("7");
        reveal_strlit("8");
        reveal_strlit("9");
        reveal_strlit("a");
        reveal_strlit("b");
        reveal_strlit("c");
        reveal_strlit("d");
        reveal_strlit("e");
        reveal_strlit("f");
    }
    let s = match d {
        0 => "0",
        1 => "1",
        2 => "2",
        3 => "3",
        4 => "4",
        5 => "5",
        6 => "6",
        7 => "7",
        8 => "8",
        9 => "9",
        10 => "a",
        11 => "b",
        12 => "c",
        13 => "d",
        14 => "e",
        _ => "f",
    };
    assert(s@ =~= seq![hex_digit(d as int)]);
    s
}

fn push_hex_byte(s: &mut String, b: u8)
    ensures
        final(s)@ == old(s)@ + hex_byte(b),
{
    s.append(hex_digit_str(b / 16));
    s.append(hex_digit_str(b % 16));
    assert(s@ =~= old(s)@ + hex_byte(b));
}

/// The byte that stores the channel `c`.
pub fn channel_to_byte(c: Fixed) -> (b: u8)
    ensures
        b == raw_to_byte(c@),
{
    let scaled: i128 = div_floor(c.raw as i128 * 255, 65536);
    if scaled < 0 {
        0
    } else if scaled > 255 {
        255
    } else {
        scaled as u8
    }
}

/// The channel that the byte `b` stands for.
pub fn byte_to_channel(b: u8) -> (c: Fixed)
    ensures
        c@ == byte_to_raw(b),
{
    Fixed { raw: ((b as i32) * 65536 + 254) / 255 }
}

impl Color {
    pub open spec fn spec_new(r: u8, g: u8, b: u8, a: u8) -> Color {
        Color {
            r: Fixed::of(byte_to_raw(r)),
            g: Fixed::of(byte_to_raw(g)),
            b: Fixed::of(byte_to_raw(b)),
            a: Fixed::of(byte_to_raw(a)),
        }
    }

    /// The color that a stored pixel stands for.
    pub open spec fn of_pixel(p: Pixel) -> Color {
        Color::spec_new(p.r, p.g, p.b, p.a)
    }

    /// The pixel that stores the color.
    pub open spec fn spec_to_pixel(self) -> Pixel {
        Pixel {
            r: raw_to_byte(self.r@),
            g: raw_to_byte(self.g@),
            b: raw_to_byte(self.b@),
            a: raw_to_byte(self.a@),
        }
    }

    /// Transparent black.
    pub open spec fn spec_clear() -> Color {
        Color { r: Fixed::of(0), g: Fixed::of(0), b: Fixed::of(0), a: Fixed::of(0) }
    }

    pub open spec fn spec_overlay(self, other: Color) -> Color {
        let rest = Fixed::of(SCALE as int).spec_sub(self.a);
        Color {
            r: self.r.spec_mul(self.a).spec_add(other.r.spec_mul(rest)),
            g: self.g.spec_mul(self.a).spec_add(other.g.spec_mul(rest)),
            b: self.b.spec_mul(self.a).spec_add(other.b.spec_mul(rest)),
            a: other.a,
        }
    }

    pub open spec fn spec_average(self, other: Color, alpha: Fixed) -> Color {
        let rest = Fixed::of(SCALE as int).spec_sub(alpha);
        Color {
            r: self.r.spec_mul(alpha).spec_add(other.r.spec_mul(rest)),
            g: self.g.spec_mul(alpha).spec_add(other.g.spec_mul(rest)),
            b: self.b.spec_mul(alpha).spec_add(other.b.spec_mul(rest)),
            a: self.a.spec_mul(alpha).spec_add(other.a.spec_mul(rest)),
        }
    }

    /// The color channels multiplied by `s`; the opacity is kept.
    pub open spec fn spec_scale(self, s: Fixed) -> Color {
        Color { r: self.r.spec_mul(s), g: self.g.spec_mul(s), b: self.b.spec_mul(s), a: self.a }
    }

    /// The sum of all four channels.
    pub open spec fn spec_add(self, other: Color) -> Color {
        Color {
            r: self.r.spec_add(other.r),
            g: self.g.spec_add(other.g),
            b: self.b.spec_add(other.b),
            a: self.a.spec_add(other.a),
        }
    }

    /// The product of all four channels.
    pub open spec fn spec_modulate(self, other: Color) -> Color {
        Color {
            r: self.r.spec_mul(other.r),
            g: self.g.spec_mul(other.g),
            b: self.b.spec_mul(other.b),
            a: self.a.spec_mul(other.a),
        }
    }

    /// The luminance: the color channels weighted by [`LUMA_RED`],
    /// [`LUMA_GREEN`] and [`LUMA_BLUE`].
    pub open spec fn spec_to_gray(self) -> Fixed {
        self.r.spec_mul(Fixed::of(LUMA_RED as int)).spec_add(
            self.g.spec_mul(Fixed::of(LUMA_GREEN as int)),
        ).spec_add(self.b.spec_mul(Fixed::of(LUMA_BLUE as int)))
    }

    /// The color with the given bytes as channels.
    pub fn new(r: u8, g: u8, b: u8, a: u8) -> (c: Color)
        ensures
            c == Color::spec_new(r, g, b, a),
            c.spec_to_pixel() == (Pixel { r, g, b, a }),
    {
        proof {
            lemma_byte_round_trip(r);
            lemma_byte_round_trip(g);
            lemma_byte_round_trip(b);
            lemma_byte_round_trip(a);
        }
        Color {
            r: byte_to_channel(r),
            g: byte_to_channel(g),
            b: byte_to_channel(b),
            a: byte_to_channel(a),
        }
    }

    /// Transparent black.
    pub fn clear() -> (c: Color)
        ensures
            c == Color::spec_clear(),
    {
        Color { r: Fixed::zero(), g: Fixed::zero(), b: Fixed::zero(), a: Fixed::zero() }
    }

    /// The color that a stored pixel stands for.
    pub fn from_pixel(p: Pixel) -> (c: Color)
        ensures
            c == Color::of_pixel(p),
            c.spec_to_pixel() == p,
    {
        Color::new(p.r, p.g, p.b, p.a)
    }

    /// The pixel that stores the color.
    pub fn to_pixel(&self) -> (p: Pixel)
        ensures
            p == self.spec_to_pixel(),
    {
        Pixel {
            r: channel_to_byte(self.r),
            g: channel_to_byte(self.g),
            b: channel_to_byte(self.b),
            a: channel_to_byte(self.a),
        }
    }

    /// A hash sign and the color channels as two hexadecimal digits each.
    pub fn to_hex(&self) -> (s: String)
        ensures
            s@ == hex_triplet(raw_to_byte(self.r@), raw_to_byte(self.g@), raw_to_byte(self.b@)),
    {
        proof {
            reveal_strlit("#");
        }
        let mut s = String::new();
        s.append("#");
        assert(s@ =~= seq!['#']);
        push_hex_byte(&mut s, channel_to_byte(self.r));
        push_hex_byte(&mut s, channel_to_byte(self.g));
        push_hex_byte(&mut s, channel_to_byte(self.b));
        s
    }

    /// This color composited over `other` by this color's opacity.
    pub fn overlay(&self, other: Color) -> (c: Color)
        ensures
            c == self.spec_overlay(other),
    {
        let rest = Fixed::one().sub(self.a);
        Color {
            r: self.r.mul(self.a).add(other.r.mul(rest)),
            g: self.g.mul(self.a).add(other.g.mul(rest)),
            b: self.b.mul(self.a).add(other.b.mul(rest)),
            a: other.a,
        }
    }

    /// The weighted mean of this color, with weight `alpha`, and `other`.
    pub fn average(&self, other: Color, alpha: Fixed) -> (c: Color)
        ensures
            c == self.spec_average(other, alpha),
    {
        let rest = Fixed::one().sub(alpha);
        Color {
            r: self.r.mul(alpha).add(other.r.mul(rest)),
            g: self.g.mul(alpha).add(other.g.mul(rest)),
            b: self.b.mul(alpha).add(other.b.mul(rest)),
            a: self.a.mul(alpha).add(other.a.mul(rest)),
        }
    }

    /// The color channels multiplied by `s`; the opacity is kept.
    pub fn scale(self, s: Fixed) -> (c: Color)
        ensures
            c == self.spec_scale(s),
    {
        Color { r: self.r.mul(s), g: self.g.mul(s), b: self.b.mul(s), a: self.a }
    }

    /// The sum of all four channels.
    pub fn add(self, rhs: Color) -> (c: Color)
        ensures
            c == self.spec_add(rhs),
    {
        Color {
            r: self.r.add(rhs.r),
            g: self.g.add(rhs.g),
            b: self.b.add(rhs.b),
            a: self.a.add(rhs.a),
        }
    }

    /// The product of all four channels.
    pub fn modulate(self, other: Color) -> (c: Color)
        ensures
            c == self.spec_modulate(other),
    {
        Color {
            r: self.r.mul(other.r),
            g: self.g.mul(other.g),
            b: self.b.mul(other.b),
            a: self.a.mul(other.a),
        }
    }

    /// The luminance of the color.
    pub fn to_gray(&self) -> (l: Fixed)
        ensures
            l == self.spec_to_gray(),
    {
        self.r.mul(Fixed { raw: LUMA_RED }).add(self.g.mul(Fixed { raw: LUMA_GREEN })).add(
            self.b.mul(Fixed { raw: LUMA_BLUE }),
        )
    }
}

// The operators stand for the methods of the same meaning: `*` with a scalar
// scales the color channels, `*` between colors multiplies channel by
// channel, `+` adds channel by channel.

impl core::ops::Mul<Fixed> for Color {
    type Output = Color;

    fn mul(self, rhs: Fixed) -> (r: Color) {
        self.scale(rhs)
    }
}

impl vstd::std_specs::ops::MulSpecImpl<Fixed> for Color {
    open spec fn obeys_mul_spec() -> bool {
        true
    }

    open spec fn mul_req(self, rhs: Fixed) -> bool {
        true
    }

    open spec fn mul_spec(self, rhs: Fixed) -> Color {
        self.spec_scale(rhs)
    }
}

impl core::ops::Mul for Color {
    type Output = Color;

    fn mul(self, rhs: Color) -> (r: Color) {
        self.modulate(rhs)
    }
}

impl vstd::std_specs::ops::MulSpecImpl for Color {
    open spec fn obeys_mul_spec() -> bool {
        true
    }

    open spec fn mul_req(self, rhs: Color) -> bool {
        true
    }

    open spec fn mul_spec(self, rhs: Color) -> Color {
        self.spec_modulate(rhs)
    }
}

impl core::ops::Add for Color {
    type Output = Color;

    fn add(self, rhs: Color) -> (r: Color) {
        Color::add(self, rhs)
    }
}

impl vstd::std_specs::ops::AddSpecImpl for Color {
    open spec fn obeys_add_spec() -> bool {
        true
    }

    open spec fn add_req(self, rhs: Color) -> bool {
        true
    }

    open spec fn add_spec(self, rhs: Color) -> Color {
        self.spec_add(rhs)
    }
}

/// The failure of the outside encoder, `png::EncodingError`; nothing looks
/// inside it.
#[verifier::external_type_specification]
#[verifier::external_body]
pub struct ExEncodingError(png::EncodingError);

/// What the encoder of the `png` crate, with its default settings, makes of
/// an image of eight-bit RGBA samples: the PNG byte stream, or nothing where
/// it fails.
pub uninterp spec fn png_rgba8(width: u32, height: u32, samples: Seq<u8>) -> Option<Seq<u8>>;

/// Runs `png::Encoder` over an in-memory buffer: `Encoder::new`, `set_color`
/// with `ColorType::Rgba`, `set_depth` with `BitDepth::Eight`, `write_header`,
/// `Writer::write_image_data` and `Writer::finish`. What comes back is what
/// [`png_rgba8`] names: the stream in the buffer on success, nothing on
/// failure. The encoder fails on an empty image and on a buffer that does
/// not hold four bytes for each pixel, and on nothing else: its other
/// failures are those of the writer, and writing into a buffer in memory
/// does not fail, and the compressed samples are cut into chunks that are
/// never too long. It multiplies the length of a row by the number of rows,
/// so that product has to fit.
#[verifier::external_body]
fn png_encode_rgba8(width: u32, height: u32, samples: &Vec<u8>) -> (r: Result<
    Vec<u8>,
    png::EncodingError,
>)
    requires
        4 * width * height <= usize::MAX,
    ensures
        r matches Ok(stream) ==> png_rgba8(width, height, samples@) == Some(stream@),
        r is Err ==> png_rgba8(width, height, samples@) is None,
        r is Ok ==> width > 0 && height > 0 && samples@.len() == 4 * width * height,
        width > 0 && height > 0 && samples@.len() == 4 * width * height ==> r is Ok,
{
    let mut stream = Vec::new();
    let mut encoder = png::Encoder::new(&mut stream, width, height);
    encoder.set_color(png::ColorType::Rgba);
    encoder.set_depth(png::BitDepth::Eight);
    let mut writer = encoder.write_header()?;
    writer.write_image_data(samples)?;
    writer.finish()?;
    Ok(stream)
}

/// Why an image could not be encoded.
#[derive(Clone, Copy, Debug, PartialEq, Eq, Structural)]
pub enum EncodeError {
    /// The image has no pixels.
    Empty,
    /// The encoder failed.
    Encoder,
}

/// The outcome of encoding, given what the encoder returned.
pub open spec fn encode_outcome(r: Result<Vec<u8>, png::EncodingError>) -> Result<
    Vec<u8>,
    EncodeError,
> {
    match r {
        Ok(stream) => Ok(stream),
        Err(_) => Err(EncodeError::Encoder),
    }
}

/// Keeps an encoded stream and maps the encoder's failure to
/// [`EncodeError::Encoder`].
pub fn finish_encoding(r: Result<Vec<u8>, png::EncodingError>) -> (out: Result<
    Vec<u8>,
    EncodeError,
>)
    ensures
        out == encode_outcome(r),
{
    match r {
        Ok(stream) => Ok(stream),
        Err(_) => Err(EncodeError::Encoder),
    }
}

/// Whether `x` and `y` name a pixel of an image of the given size.
pub open spec fn in_bounds(width: nat, height: nat, x: int, y: int) -> bool {
    0 <= x < width && 0 <= y < height
}

/// Offset of the first byte of the pixel in column `x` of row `y`.
pub open spec fn pixel_offset(width: nat, x: int, y: int) -> int {
    4 * (x + y * width)
}

/// The pixels of an image of the given width lie one after another.
pub proof fn lemma_pixel_offsets(width: nat, height: nat, x: int, y: int)
    requires
        in_bounds(width, height, x, y),
    ensures
        0 <= pixel_offset(width, x, y),
        pixel_offset(width, x, y) + 4 <= 4 * width * height,
{
    assert(y * width + width <= height * width) by (nonlinear_arith)
        requires
            0 <= y < height,
            0 <= width,
    ;
    assert(0 <= y * width) by (nonlinear_arith)
        requires
            0 <= y,
            0 <= width,
    ;
    assert(4 * width * height == 4 * (height * width)) by (nonlinear_arith);
}

/// Different pixels start at offsets at least four apart.
pub proof fn lemma_pixel_offsets_apart(width: nat, x1: int, y1: int, x2: int, y2: int)
    requires
        0 <= x1 < width,
        0 <= x2 < width,
        0 <= y1,
        0 <= y2,
        x1 != x2 || y1 != y2,
    ensures
        pixel_offset(width, x1, y1) + 4 <= pixel_offset(width, x2, y2) || pixel_offset(
            width,
            x2,
            y2,
        ) + 4 <= pixel_offset(width, x1, y1),
{
    if y1 < y2 {
        assert(y1 * width + width <= y2 * width) by (nonlinear_arith)
            requires
                y1 + 1 <= y2,
                0 <= width,
        ;
    } else if y2 < y1 {
        assert(y2 * width + width <= y1 * width) by (nonlinear_arith)
            requires
                y2 + 1 <= y1,
                0 <= width,
        ;
    }
}

/// A raster of pixels, four bytes each, stored row by row.
pub struct Image {
    width: usize,
    height: usize,
    pixels: Vec<u8>,
}

impl Image {
    /// The number of columns.
    pub closed spec fn spec_width(&self) -> nat {
        self.width as nat
    }

    /// The number of rows.
    pub closed spec fn spec_height(&self) -> nat {
        self.height as nat
    }

    /// The stored bytes, row by row, four for each pixel.
    pub closed spec fn bytes(&self) -> Seq<u8> {
        self.pixels@
    }

    /// The pixel in column `x` of row `y`.
    pub open spec fn spec_pixel(&self, x: int, y: int) -> Pixel {
        let base = pixel_offset(self.spec_width(), x, y);
        Pixel {
            r: self.bytes()[base],
            g: self.bytes()[base + 1],
            b: self.bytes()[base + 2],
            a: self.bytes()[base + 3],
        }
    }

    /// The buffer holds four bytes for each pixel.
    pub open spec fn wf(&self) -> bool {
        self.bytes().len() == 4 * self.spec_width() * self.spec_height()
    }

    /// Neither side exceeds the range of `u32`.
    pub open spec fn fits(&self) -> bool {
        self.spec_width() <= u32::MAX && self.spec_height() <= u32::MAX
    }

    /// An image of the given size with every byte zero.
    pub fn new(width: usize, height: usize) -> (img: Image)
        requires
            4 * width * height <= usize::MAX,
        ensures
            img.wf(),
            img.spec_width() == width,
            img.spec_height() == height,
            img.bytes() == Seq::new((4 * width * height) as nat, |i: int| 0u8),
    {
        assert(width * height <= 4 * width * height) by (nonlinear_arith)
            requires
                0 <= width,
                0 <= height,
        ;
        assert(4 * width * height == width * height * 4) by (nonlinear_arith);
        let channels: usize = 4;
        let size: usize = width * height * channels;
        let pixels: Vec<u8> = vec![0u8;size];
        assert(pixels@ =~= Seq::new((4 * width * height) as nat, |i: int| 0u8));
        Image { width, height, pixels }
    }

    /// An image of the same size as `other` with every byte zero.
    pub fn new_like(other: &Image) -> (img: Image)
        requires
            other.wf(),
        ensures
            img.wf(),
            img.spec_width() == other.spec_width(),
            img.spec_height() == other.spec_height(),
            img.bytes() == Seq::new(
                (4 * other.spec_width() * other.spec_height()) as nat,
                |i: int| 0u8,
            ),
    {
        let len: usize = other.pixels.len();
        assert(4 * other.width * other.height == len);
        Image::new(other.width, other.height)
    }

    /// The number of columns.
    pub fn get_width(&self) -> (w: u32)
        requires
            self.spec_width() <= u32::MAX,
        ensures
            w == self.spec_width(),
    {
        self.width as u32
    }

    /// The number of rows.
    pub fn get_height(&self) -> (h: u32)
        requires
            self.spec_height() <= u32::MAX,
        ensures
            h == self.spec_height(),
    {
        self.height as u32
    }

    /// The color of the pixel in column `x` of row `y`.
    pub fn get_pixel(&self, x: usize, y: usize) -> (c: Color)
        requires
            self.wf(),
            in_bounds(self.spec_width(), self.spec_height(), x as int, y as int),
        ensures
            c == Color::of_pixel(self.spec_pixel(x as int, y as int)),
    {
        let len: usize = self.pixels.len();
        proof {
            lemma_pixel_offsets(self.spec_width(), self.spec_height(), x as int, y as int);
            assert(0 <= y * self.width) by (nonlinear_arith)
                requires
                    0 <= y,
                    0 <= self.width,
            ;
            assert(4 * (x + y * self.width) + 4 <= len);
        }
        let base: usize = 4 * (x + y * self.width);
        Color::new(
            self.pixels[base],
            self.pixels[base + 1],
            self.pixels[base + 2],
            self.pixels[base + 3],
        )
    }

    /// The color of the pixel in column `x` of row `y`.
    pub fn get_pixelu32(&self, x: u32, y: u32) -> (c: Color)
        requires
            self.wf(),
            in_bounds(self.spec_width(), self.spec_height(), x as int, y as int),
        ensures
            c == Color::of_pixel(self.spec_pixel(x as int, y as int)),
    {
        self.get_pixel(x as usize, y as usize)
    }

    /// Stores `color` in the pixel in column `x` of row `y`.
    pub fn set_pixelu32(&mut self, x: u32, y: u32, color: Color)
        requires
            old(self).wf(),
            in_bounds(old(self).spec_width(), old(self).spec_height(), x as int, y as int),
        ensures
            final(self).wf(),
            final(self).spec_width() == old(self).spec_width(),
            final(self).spec_height() == old(self).spec_height(),
            final(self).spec_pixel(x as int, y as int) == color.spec_to_pixel(),
            forall|i: int, j: int|
                in_bounds(old(self).spec_width(), old(self).spec_height(), i, j) && (i != x || j
                    != y) ==> #[trigger] final(self).spec_pixel(i, j) == old(self).spec_pixel(i, j),
    {
        self.set_pixel(x as usize, y as usize, color)
    }

    /// Stores `color` in the pixel in column `x` of row `y`.
    pub fn set_pixel(&mut self, x: usize, y: usize, color: Color)
        requires
            old(self).wf(),
            in_bounds(old(self).spec_width(), old(self).spec_height(), x as int, y as int),
        ensures
            final(self).wf(),
            final(self).spec_width() == old(self).spec_width(),
            final(self).spec_height() == old(self).spec_height(),
            final(self).spec_pixel(x as int, y as int) == color.spec_to_pixel(),
            forall|i: int, j: int|
                in_bounds(old(self).spec_width(), old(self).spec_height(), i, j) && (i != x || j
                    != y) ==> #[trigger] final(self).spec_pixel(i, j) == old(self).spec_pixel(i, j),
    {
        let len: usize = self.pixels.len();
        proof {
            lemma_pixel_offsets(self.spec_width(), self.spec_height(), x as int, y as int);
            assert(0 <= y * self.width) by (nonlinear_arith)
                requires
                    0 <= y,
                    0 <= self.width,
            ;
            assert(4 * (x + y * self.width) + 4 <= len);
        }
        let base: usize = 4 * (x + y * self.width);
        let p = color.to_pixel();
        self.pixels.set(base, p.r);
        self.pixels.set(base + 1, p.g);
        self.pixels.set(base + 2, p.b);
        self.pixels.set(base + 3, p.a);
        proof {
            let w = self.spec_width();
            let h = self.spec_height();
            assert forall|i: int, j: int| in_bounds(w, h, i, j) && (i != x || j != y) implies #[trigger] self.spec_pixel(i, j) == old(self).spec_pixel(i, j) by {
                lemma_pixel_offsets(w, h, i, j);
                lemma_pixel_offsets_apart(w, i, j, x as int, y as int);
            }
        }
    }

    /// What encoding the image gives, for what the encoder makes of it.
    pub open spec fn encoded(&self, out: Result<Vec<u8>, EncodeError>) -> bool {
        let made = png_rgba8(self.spec_width() as u32, self.spec_height() as u32, self.bytes());
        match out {
            Ok(stream) => self.spec_width() > 0 && self.spec_height() > 0 && made == Some(stream@),
            Err(EncodeError::Empty) => self.spec_width() == 0 || self.spec_height() == 0,
            Err(EncodeError::Encoder) => self.spec_width() > 0 && self.spec_height() > 0
                && made is None,
        }
    }

    /// The image as a PNG byte stream of eight-bit RGBA samples.
    ///
    /// An image without pixels is refused with [`EncodeError::Empty`] before
    /// the encoder is asked; every other image is encoded.
    pub fn encode_png(&self) -> (out: Result<Vec<u8>, EncodeError>)
        requires
            self.wf(),
            self.fits(),
        ensures
            self.encoded(out),
            out is Ok <==> self.spec_width() > 0 && self.spec_height() > 0,
            out is Err ==> out == Err::<Vec<u8>, EncodeError>(EncodeError::Empty),
    {
        if self.width == 0 || self.height == 0 {
            return Err(EncodeError::Empty);
        }
        let len: usize = self.pixels.len();
        assert(4 * self.width * self.height == len);
        finish_encoding(png_encode_rgba8(self.width as u32, self.height as u32, &self.pixels))
    }
}

} // verus!
