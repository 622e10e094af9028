//! Plain-text PPM (`P3`) encoding of the image header and of pixel colors.
use vstd::prelude::*;

verus! {

pub const LETTER_P: u8 = 80;

pub const DIGIT_2: u8 = 50;

pub const DIGIT_3: u8 = 51;

pub const DIGIT_5: u8 = 53;

pub const SPACE: u8 = 32;

pub const NEWLINE: u8 = 10;

/// ASCII decimal digits of `n`, most significant first, without leading zeros.
pub open spec fn decimal(n: nat) -> Seq<u8>
    decreases n,
{
    if n < 10 {
        seq![(48 + n) as u8]
    } else {
        decimal(n / 10).push((48 + n % 10) as u8)
    }
}

/// `P3`, width and height separated by a space, and the maximum channel
/// value 255, each on a line of its own.
pub open spec fn header_text(width: u32, height: u32) -> Seq<u8> {
    seq![LETTER_P, DIGIT_3, NEWLINE] + decimal(width as nat) + seq![SPACE] + decimal(height as nat) + seq![
        NEWLINE,
        DIGIT_2,
        DIGIT_5,
        DIGIT_5,
        NEWLINE,
    ]
}

/// The three channels in decimal, separated by spaces, ending the line.
pub open spec fn color_text(r: u8, g: u8, b: u8) -> Seq<u8> {
    decimal(r as nat) + seq![SPACE] + decimal(g as nat) + seq![SPACE] + decimal(b as nat) + seq![
        NEWLINE,
    ]
}

/// Appends the decimal digits of `n` to `out`.
pub fn push_decimal(out: &mut Vec<u8>, n: u32)
    ensures
        final(out)@ == old(out)@ + decimal(n as nat),
    decreases n,
{
    if n >= 10 {
        push_decimal(out, n / 10);
    }
    let digit: u8 = (n % 10) as u8;
    out.push(48 + digit);
    assert(final(out)@ =~= old(out)@ + decimal(n as nat));
}

/// The PPM header for an image of the given size.
pub fn file_info(width: u32, height: u32) -> (r: Vec<u8>)
    ensures
        r@ == header_text(width, height),
{
    let mut out: Vec<u8> = Vec::new();
    out.push(LETTER_P);
    out.push(DIGIT_3);
    out.push(NEWLINE);
    push_decimal(&mut out, width);
    out.push(SPACE);
    push_decimal(&mut out, height);
    out.push(NEWLINE);
    out.push(DIGIT_2);
    out.push(DIGIT_5);
    out.push(DIGIT_5);
    out.push(NEWLINE);
    assert(out@ =~= header_text(width, height));
    out
}

/// One pixel's line of PPM text for channels already scaled to 0..=255.
pub fn color_line(r: u8, g: u8, b: u8) -> (line: Vec<u8>)
    ensures
        line@ == color_text(r, g, b),
{
    let mut out: Vec<u8> = Vec::new();
    push_decimal(&mut out, r as u32);
    out.push(SPACE);
    push_decimal(&mut out, g as u32);
    out.push(SPACE);
    push_decimal(&mut out, b as u32);
    out.push(NEWLINE);
    assert(out@ =~= color_text(r, g, b));
    out
}

} // verus!
