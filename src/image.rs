//! Encodings of a canvas of eight-bit RGB pixels: plain PPM text and PNG.

use vstd::prelude::*;
use vstd::string::*;

use crate::canvas::Canvas;

verus! {

/// A pixel of three eight-bit channels: red, green and blue.
#[derive(Clone, Copy, Debug, PartialEq, Eq, Structural)]
pub struct Rgb(pub u8, pub u8, pub u8);

/// Why a canvas could not be encoded.
#[derive(Clone, Copy, Debug, PartialEq, Eq, Structural)]
pub enum ImageError {
    /// The canvas has no pixel: its width or its height is zero.
    Empty,
    /// The width or the height does not fit in 32 bits.
    TooLarge,
    /// The PNG encoder refused the image; no canvas of this crate meets
    /// this, as `to_png` states.
    Encoding,
}

/// Channel `k` (0 red, 1 green, 2 blue) of `p`.
pub open spec fn channel(p: Rgb, k: int) -> u8 {
    if k == 0 {
        p.0
    } else if k == 1 {
        p.1
    } else {
        p.2
    }
}

/// The channels of `pixels`, three bytes per pixel, in the pixels' order.
pub open spec fn rgb_bytes(pixels: Seq<Rgb>) -> Seq<u8> {
    Seq::new(3 * pixels.len(), |i: int| channel(pixels[i / 3], i % 3))
}

/// The decimal digit `d`.
pub open spec fn digit_char(d: nat) -> char {
    if d == 0 { '0' }
    else if d == 1 { '1' }
    else if d == 2 { '2' }
    else if d == 3 { '3' }
    else if d == 4 { '4' }
    else if d == 5 { '5' }
    else if d == 6 { '6' }
    else if d == 7 { '7' }
    else if d == 8 { '8' }
    else { '9' }
}

/// `n` written in decimal, without leading zeros.
pub open spec fn decimal(n: nat) -> Seq<char>
    decreases n,
{
    if n < 10 {
        seq![digit_char(n)]
    } else {
        decimal(n / 10).push(digit_char(n % 10))
    }
}

/// One pixel of a PPM text: its three channels in decimal, apart by spaces.
pub open spec fn pixel_text(p: Rgb) -> Seq<char> {
    decimal(p.0 as nat) + seq![' '] + decimal(p.1 as nat) + seq![' '] + decimal(p.2 as nat)
}

/// The first `n` pixels of row `y`, apart by spaces.
pub open spec fn row_text(c: Canvas<Rgb>, y: int, n: int) -> Seq<char>
    decreases n,
{
    if n <= 0 {
        Seq::empty()
    } else if n == 1 {
        pixel_text(c.pixel(0, y))
    } else {
        row_text(c, y, n - 1) + seq![' '] + pixel_text(c.pixel(n - 1, y))
    }
}

/// The first `k` rows, each after a line break.
pub open spec fn rows_text(c: Canvas<Rgb>, k: int) -> Seq<char>
    decreases k,
{
    if k <= 0 {
        Seq::empty()
    } else {
        rows_text(c, k - 1) + seq!['\n'] + row_text(c, k - 1, c.width as int)
    }
}

/// The plain PPM text of `c`: the header `P3`, the size and the largest
/// channel value 255, then one line per row, and a final line break.
pub open spec fn ppm_text(c: Canvas<Rgb>) -> Seq<char> {
    seq!['P', '3', '\n'] + decimal(c.width as nat) + seq![' '] + decimal(c.height as nat)
        + seq!['\n', '2', '5', '5'] + rows_text(c, c.height as int) + seq!['\n']
}

/// The PNG file that the `png` crate writes for an image of `width` by
/// `height` pixels of eight-bit RGB, from `data`, three bytes per pixel,
/// row by row.
pub uninterp spec fn png_rgb8(width: u32, height: u32, data: Seq<u8>) -> Seq<u8>;

#[verifier::external_type_specification]
#[verifier::external_body]
pub struct ExEncodingError(png::EncodingError);

/// Relies on png's `Encoder` (with `ColorType::Rgb`, `BitDepth::Eight`),
/// `Writer::write_image_data` and `Writer::finish`, writing into memory: the
/// bytes written are a function of the size and the data alone. The encoder
/// refuses only a zero width or height, or data of another length than three
/// bytes per pixel; writing into a `Vec` does not fail.
#[verifier::external_body]
fn encode_rgb8(width: u32, height: u32, data: &Vec<u8>) -> (r: Result<Vec<u8>, png::EncodingError>)
    requires
        data@.len() == 3 * width * height,
    ensures
        r matches Ok(bytes) ==> bytes@ == png_rgb8(width, height, data@),
        width > 0 && height > 0 ==> r is Ok,
{
    let mut out: Vec<u8> = Vec::new();
    {
        let mut encoder = png::Encoder::new(&mut out, width, height);
        encoder.set_color(png::ColorType::Rgb);
        encoder.set_depth(png::BitDepth::Eight);
        let mut writer = encoder.write_header()?;
        writer.write_image_data(data)?;
        writer.finish()?;
    }
    Ok(out)
}

/// The digit `d` as a one-character string.
fn digit_str(d: u64) -> (r: &'static str)
    requires
        d < 10,
    ensures
        r@ == seq![digit_char(d as nat)],
{
    proof {
        reveal_strlit("0");
        reveal_strlit("1");
        reveal_strlit("2");
        reveal_strlit("3");
        reveal_strlit("4");
        reveal_strlit("5");
        reveal_strlit("6");
        reveal_strlit("7");
        reveal_strlit("8");
        reveal_strlit("9");
    }
    if d == 0 { "0" }
    else if d == 1 { "1" }
    else if d == 2 { "2" }
    else if d == 3 { "3" }
    else if d == 4 { "4" }
    else if d == 5 { "5" }
    else if d == 6 { "6" }
    else if d == 7 { "7" }
    else if d == 8 { "8" }
    else { "9" }
}

/// Appends `n` in decimal to `s`.
fn append_decimal(s: &mut String, n: u64)
    ensures
        final(s)@ == old(s)@ + decimal(n as nat),
    decreases n,
{
    if n >= 10 {
        append_decimal(s, n / 10);
    }
    s.append(digit_str(n % 10));
    proof {
        assert(old(s)@ + decimal(n as nat) =~= final(s)@) by {
            if n >= 10 {
                assert(decimal(n as nat) == decimal((n / 10) as nat).push(digit_char((n % 10) as nat)));
            }
        }
    }
}

impl Canvas<Rgb> {
    /// The channels of the pixels, three bytes per pixel, row by row.
    pub fn rgb_data(&self) -> (r: Vec<u8>)
        requires
            self.wf(),
        ensures
            r@ == rgb_bytes(self.pixels@),
    {
        let n = self.pixels.len();
        let mut r: Vec<u8> = Vec::new();
        let mut i: usize = 0;
        while i < n
            invariant
                n == self.pixels@.len(),
                i <= n,
                r@ == rgb_bytes(self.pixels@.take(i as int)),
            decreases n - i,
        {
            let p = self.pixels[i];
            r.push(p.0);
            r.push(p.1);
            r.push(p.2);
            proof {
                assert(self.pixels@.take(i + 1) =~= self.pixels@.take(i as int).push(p));
                assert(r@ =~= rgb_bytes(self.pixels@.take(i + 1)));
            }
            i += 1;
        }
        assert(self.pixels@.take(n as int) =~= self.pixels@);
        r
    }

    /// The plain PPM text of the canvas.
    pub fn to_ppm(&self) -> (r: String)
        requires
            self.wf(),
        ensures
            r@ == ppm_text(*self),
    {
        proof {
            reveal_strlit("P3\n");
            reveal_strlit(" ");
            reveal_strlit("\n255");
            reveal_strlit("\n");
        }
        let mut s = String::new();
        s.append("P3\n");
        append_decimal(&mut s, self.width as u64);
        s.append(" ");
        append_decimal(&mut s, self.height as u64);
        s.append("\n255");
        let ghost header = s@;
        let mut y: usize = 0;
        while y < self.height
            invariant
                self.wf(),
                y <= self.height,
                s@ == header + rows_text(*self, y as int),
            decreases self.height - y,
        {
            proof {
                reveal_strlit("\n");
            }
            s.append("\n");
            let ghost line_start = s@;
            let mut x: usize = 0;
            while x < self.width
                invariant
                    self.wf(),
                    x <= self.width,
                    y < self.height,
                    s@ == line_start + row_text(*self, y as int, x as int),
                decreases self.width - x,
            {
                proof {
                    reveal_strlit(" ");
                }
                if x > 0 {
                    s.append(" ");
                }
                let ghost sep = s@;
                let p = self.get_color_at(x, y);
                append_decimal(&mut s, p.0 as u64);
                s.append(" ");
                append_decimal(&mut s, p.1 as u64);
                s.append(" ");
                append_decimal(&mut s, p.2 as u64);
                proof {
                    assert(s@ =~= sep + pixel_text(p));
                    if x == 0 {
                        assert(sep =~= line_start);
                    } else {
                        assert(sep =~= line_start + row_text(*self, y as int, x as int) + seq![' ']);
                    }
                    assert(s@ =~= line_start + row_text(*self, y as int, x + 1));
                }
                x += 1;
            }
            proof {
                assert(rows_text(*self, y + 1) == rows_text(*self, y as int) + seq!['\n']
                    + row_text(*self, y as int, self.width as int));
                assert(s@ =~= header + rows_text(*self, y + 1));
            }
            y += 1;
        }
        s.append("\n");
        proof {
            assert(s@ =~= ppm_text(*self));
        }
        s
    }

    /// The PNG file of the canvas, eight bits per channel.
    pub fn to_png(&self) -> (r: Result<Vec<u8>, ImageError>)
        requires
            self.wf(),
        ensures
            self.width == 0 || self.height == 0 ==> r == Err::<Vec<u8>, ImageError>(ImageError::Empty),
            self.width > 0 && self.height > 0 && (self.width > u32::MAX || self.height > u32::MAX)
                ==> r == Err::<Vec<u8>, ImageError>(ImageError::TooLarge),
            r matches Ok(bytes) ==> bytes@ == png_rgb8(self.width as u32, self.height as u32, rgb_bytes(self.pixels@)),
            0 < self.width <= u32::MAX && 0 < self.height <= u32::MAX ==> r is Ok,
    {
        if self.width == 0 || self.height == 0 {
            return Err(ImageError::Empty);
        }
        if self.width > u32::MAX as usize || self.height > u32::MAX as usize {
            return Err(ImageError::TooLarge);
        }
        let data = self.rgb_data();
        proof {
            let (w, h) = (self.width as int, self.height as int);
            assert(3 * (w * h) == 3 * w * h) by (nonlinear_arith);
        }
        match encode_rgb8(self.width as u32, self.height as u32, &data) {
            Ok(bytes) => Ok(bytes),
            Err(_) => Err(ImageError::Encoding),
        }
    }
}

} // verus!
