//! The picture as a plain text image, the ASCII kind of portable pixmap:
//! a header of three lines, then one line of three numbers for each pixel,
//! row by row from the top.

use vstd::prelude::*;
use crate::window::Size;

verus! {

/// The digits of `n` in base ten, as ASCII, without leading zeros.
pub open spec fn decimal(n: nat) -> Seq<u8>
    decreases n,
{
    if n < 10 {
        seq![(48 + n) as u8]
    } else {
        decimal(n / 10).push((48 + n % 10) as u8)
    }
}

/// The three header lines: the format's tag, width and height, and the
/// largest value of a channel.
pub open spec fn header_text(size: Size) -> Seq<u8> {
    seq![80u8, 51u8, 10u8] + decimal(size.w as nat) + seq![32u8] + decimal(size.h as nat) + seq![
        10u8,
        50u8,
        53u8,
        53u8,
        10u8,
    ]
}

/// The line of one pixel: red, green and blue, a blank between them.
pub open spec fn pixel_text(pixel: (u8, u8, u8)) -> Seq<u8> {
    decimal(pixel.0 as nat) + seq![32u8] + decimal(pixel.1 as nat) + seq![32u8] + decimal(
        pixel.2 as nat,
    ) + seq![10u8]
}

/// The lines of the given pixels, one after the other.
pub open spec fn pixels_text(pixels: Seq<(u8, u8, u8)>) -> Seq<u8>
    decreases pixels.len(),
{
    if pixels.len() == 0 {
        Seq::<u8>::empty()
    } else {
        pixels_text(pixels.drop_last()) + pixel_text(pixels.last())
    }
}

/// The whole file: the header, then the pixels.
pub open spec fn image_text(size: Size, pixels: Seq<(u8, u8, u8)>) -> Seq<u8> {
    header_text(size) + pixels_text(pixels)
}

/// Appends the digits of `n`.
pub fn push_decimal(out: &mut Vec<u8>, n: usize)
    ensures
        final(out)@ == old(out)@ + decimal(n as nat),
    decreases n,
{
    if n >= 10 {
        push_decimal(out, n / 10);
    }
    let digit: u8 = (n % 10) as u8;
    out.push(48 + digit);
    proof {
        if n < 10 {
            assert(final(out)@ == old(out)@ + seq![(48 + n) as u8]);
        } else {
            assert(final(out)@ == old(out)@ + decimal(n as nat / 10).push((48 + n % 10) as u8));
        }
    }
}

/// Appends the three header lines.
pub fn push_header(out: &mut Vec<u8>, size: Size)
    ensures
        final(out)@ == old(out)@ + header_text(size),
{
    out.push(80);
    out.push(51);
    out.push(10);
    push_decimal(out, size.w);
    out.push(32);
    push_decimal(out, size.h);
    out.push(10);
    out.push(50);
    out.push(53);
    out.push(53);
    out.push(10);
    proof {
        assert(final(out)@ == old(out)@ + header_text(size));
    }
}

/// Appends the line of one pixel.
pub fn push_pixel(out: &mut Vec<u8>, pixel: (u8, u8, u8))
    ensures
        final(out)@ == old(out)@ + pixel_text(pixel),
{
    push_decimal(out, pixel.0 as usize);
    out.push(32);
    push_decimal(out, pixel.1 as usize);
    out.push(32);
    push_decimal(out, pixel.2 as usize);
    out.push(10);
    proof {
        assert(final(out)@ == old(out)@ + pixel_text(pixel));
    }
}

/// The text of the image of the given size whose pixels, row by row from
/// the top, are `pixels`; none where `pixels` does not hold one entry for
/// each pixel of that size.
pub fn save_image(size: Size, pixels: &Vec<(u8, u8, u8)>) -> (r: Option<Vec<u8>>)
    ensures
        r matches Some(text) ==> text@ == image_text(size, pixels@),
        r.is_some() == (pixels@.len() == size.cells()),
{
    match size.checked_area() {
        None => {
            let n = pixels.len();
            return None;
        },
        Some(n) => {
            if pixels.len() != n {
                return None;
            }
        },
    }
    let mut out: Vec<u8> = Vec::new();
    push_header(&mut out, size);
    let mut i: usize = 0;
    while i < pixels.len()
        invariant
            i <= pixels@.len(),
            out@ == header_text(size) + pixels_text(pixels@.take(i as int)),
        decreases pixels@.len() - i,
    {
        push_pixel(&mut out, pixels[i]);
        proof {
            let next = pixels@.take(i as int + 1);
            assert(next.drop_last() == pixels@.take(i as int));
            assert(next.last() == pixels@[i as int]);
        }
        i = i + 1;
    }
    proof {
        assert(pixels@.take(pixels@.len() as int) == pixels@);
    }
    Some(out)
}

} // verus!
