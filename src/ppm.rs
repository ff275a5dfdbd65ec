use vstd::prelude::*;
use crate::raster::pixel_count;
use crate::settings::RenderSettings;

verus! {

/// The ASCII decimal digits of `n`, most significant first, with no leading
/// zero.
pub open spec fn decimal(n: nat) -> Seq<u8>
    decreases n,
{
    if n < 10 {
        seq![(48 + n) as u8]
    } else {
        decimal(n / 10).push((48 + n % 10) as u8)
    }
}

/// The header of an ASCII PPM image: magic number, size, largest channel
/// value, one per line.
pub open spec fn header_text(width: u64, height: u64) -> Seq<u8> {
    seq![80u8, 51u8, 10u8] + decimal(width as nat) + seq![32u8] + decimal(height as nat) + seq![
        10u8,
        50u8,
        53u8,
        53u8,
        10u8,
    ]
}

/// The line of an ASCII PPM image for one pixel: its three channels in
/// decimal, separated by spaces.
pub open spec fn pixel_text(r: u8, g: u8, b: u8) -> Seq<u8> {
    decimal(r as nat) + seq![32u8] + decimal(g as nat) + seq![32u8] + decimal(b as nat) + seq![10u8]
}

/// Appends the decimal digits of `n` to `out`.
pub fn push_decimal(out: &mut Vec<u8>, n: u64)
    ensures
        final(out)@ == old(out)@ + decimal(n as nat),
    decreases n,
{
    if n >= 10 {
        push_decimal(out, n / 10);
    }
    let digit = (n % 10) as u8;
    out.push(48 + digit);
    proof {
        if n < 10 {
            assert(decimal(n as nat) == seq![(48 + n) as u8]);
        }
    }
}

fn push_byte(out: &mut Vec<u8>, b: u8)
    ensures
        final(out)@ == old(out)@ + seq![b],
{
    out.push(b);
}

/// The header of an ASCII PPM image of `width` by `height` pixels.
pub fn ppm_header(width: u64, height: u64) -> (r: Vec<u8>)
    ensures
        r@ == header_text(width, height),
{
    let mut out: Vec<u8> = Vec::new();
    push_byte(&mut out, 80);
    push_byte(&mut out, 51);
    push_byte(&mut out, 10);
    push_decimal(&mut out, width);
    push_byte(&mut out, 32);
    push_decimal(&mut out, height);
    push_byte(&mut out, 10);
    push_byte(&mut out, 50);
    push_byte(&mut out, 53);
    push_byte(&mut out, 53);
    push_byte(&mut out, 10);
    assert(out@ =~= header_text(width, height));
    out
}

/// Appends the line of one pixel, with channels `r`, `g` and `b`, to `out`.
pub fn push_pixel(out: &mut Vec<u8>, r: u8, g: u8, b: u8)
    ensures
        final(out)@ == old(out)@ + pixel_text(r, g, b),
{
    let ghost start = out@;
    push_decimal(out, r as u64);
    push_byte(out, 32);
    push_decimal(out, g as u64);
    push_byte(out, 32);
    push_decimal(out, b as u64);
    push_byte(out, 10);
    assert(out@ =~= start + pixel_text(r, g, b));
}

/// The line of one pixel, with channels `r`, `g` and `b`.
pub fn pixel_line(r: u8, g: u8, b: u8) -> (line: Vec<u8>)
    ensures
        line@ == pixel_text(r, g, b),
{
    let mut out: Vec<u8> = Vec::new();
    push_pixel(&mut out, r, g, b);
    assert(out@ =~= pixel_text(r, g, b));
    out
}

/// An output pixel: three 8-bit channels.
#[derive(Debug, Clone, Copy, PartialEq, Eq, Structural)]
pub struct Rgb8 {
    pub r: u8,
    pub g: u8,
    pub b: u8,
}

/// The pixel lines of `colors`, one after another.
pub open spec fn pixels_text(colors: Seq<Rgb8>) -> Seq<u8>
    decreases colors.len(),
{
    if colors.len() == 0 {
        seq![]
    } else {
        pixels_text(colors.drop_last()) + pixel_text(
            colors.last().r,
            colors.last().g,
            colors.last().b,
        )
    }
}

/// A whole ASCII PPM image: the header, then one line per pixel in the order
/// of `colors`.
pub open spec fn image_text(width: u64, height: u64, colors: Seq<Rgb8>) -> Seq<u8> {
    header_text(width, height) + pixels_text(colors)
}

/// Encodes a whole image whose pixels `colors` holds in output order (see
/// `raster::emission_order`).
pub fn encode_image(s: &RenderSettings, colors: &Vec<Rgb8>) -> (r: Vec<u8>)
    requires
        colors@.len() == pixel_count(s.image_width, s.image_height),
    ensures
        r@ == image_text(s.image_width, s.image_height, colors@),
{
    let mut out = ppm_header(s.image_width, s.image_height);
    let mut k: usize = 0;
    while k < colors.len()
        invariant
            k <= colors@.len(),
            out@ == header_text(s.image_width, s.image_height) + pixels_text(colors@.subrange(0, k as int)),
        decreases colors@.len() - k,
    {
        let c = colors[k];
        push_pixel(&mut out, c.r, c.g, c.b);
        proof {
            let done = colors@.subrange(0, k as int + 1);
            assert(done.drop_last() =~= colors@.subrange(0, k as int));
            assert(done.last() == c);
        }
        k = k + 1;
    }
    assert(colors@.subrange(0, colors@.len() as int) =~= colors@);
    out
}

} // verus!
