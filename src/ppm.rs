//! Plain-text PPM (`P3`) encoding of an image whose channels are already
//! quantised to bytes.

use vstd::prelude::*;

verus! {

/// ASCII `0`.
pub const ZERO: u8 = 48;

/// ASCII line feed, which ends every line of the format.
pub const NEWLINE: u8 = 10;

/// ASCII space, which separates the numbers on one line.
pub const SPACE: u8 = 32;

/// ASCII `P`, the first byte of the magic number.
pub const LETTER_P: u8 = 80;

/// ASCII `3`: `P3` names the plain-text colour variant of the format.
pub const DIGIT_THREE: u8 = 51;

/// The largest value a channel can take, written in the header.
pub const MAX_CHANNEL: u8 = 255;

/// One pixel of the output image, each channel quantised to `0..=255`.
#[derive(Clone, Copy, Debug, PartialEq, Eq, Structural)]
pub struct Pixel {
    pub red: u8,
    pub green: u8,
    pub blue: u8,
}

/// Why an image could not be encoded.
#[derive(Clone, Copy, Debug, PartialEq, Eq, Structural)]
pub enum EncodeError {
    /// The number of pixels differs from `width * height`.
    PixelCount,
}

/// The ASCII digits of `n` in base ten, most significant first, without
/// leading zeros.
pub open spec fn decimal(n: nat) -> Seq<u8>
    decreases n,
{
    if n < 10 {
        seq![(ZERO + n) as u8]
    } else {
        decimal(n / 10) + seq![(ZERO + n % 10) as u8]
    }
}

/// Appends the decimal digits of `n` to `out`.
pub fn push_decimal(out: &mut Vec<u8>, n: u32)
    ensures
        final(out)@ == old(out)@ + decimal(n as nat),
    decreases n,
{
    if n < 10 {
        out.push(ZERO + n as u8);
    } else {
        push_decimal(out, n / 10);
        out.push(ZERO + (n % 10) as u8);
    }
}

/// The header: magic number, dimensions and largest channel value, one
/// line each.
pub open spec fn header(width: nat, height: nat) -> Seq<u8> {
    seq![LETTER_P, DIGIT_THREE, NEWLINE] + decimal(width) + seq![SPACE] + decimal(height) + seq![
        NEWLINE,
    ] + decimal(MAX_CHANNEL as nat) + seq![NEWLINE]
}

/// The line of one pixel: its three channels in decimal, separated by spaces.
pub open spec fn pixel_line(p: Pixel) -> Seq<u8> {
    decimal(p.red as nat) + seq![SPACE] + decimal(p.green as nat) + seq![SPACE] + decimal(
        p.blue as nat,
    ) + seq![NEWLINE]
}

/// The lines of the pixels `ps`, in order.
pub open spec fn pixel_lines(ps: Seq<Pixel>) -> Seq<u8>
    decreases ps.len(),
{
    if ps.len() == 0 {
        seq![]
    } else {
        pixel_lines(ps.drop_last()) + pixel_line(ps.last())
    }
}

/// A whole image: the header, then one line per pixel.
pub open spec fn image(width: nat, height: nat, ps: Seq<Pixel>) -> Seq<u8> {
    header(width, height) + pixel_lines(ps)
}

/// Appends the header of a `width` by `height` image to `out`.
pub fn write_header(out: &mut Vec<u8>, width: u32, height: u32)
    ensures
        final(out)@ == old(out)@ + header(width as nat, height as nat),
{
    let ghost start = out@;
    out.push(LETTER_P);
    out.push(DIGIT_THREE);
    out.push(NEWLINE);
    push_decimal(out, width);
    out.push(SPACE);
    push_decimal(out, height);
    out.push(NEWLINE);
    push_decimal(out, MAX_CHANNEL as u32);
    out.push(NEWLINE);
    assert(out@ =~= start + header(width as nat, height as nat));
}

/// Appends the line of pixel `p` to `out`.
pub fn write_pixel(out: &mut Vec<u8>, p: Pixel)
    ensures
        final(out)@ == old(out)@ + pixel_line(p),
{
    let ghost start = out@;
    push_decimal(out, p.red as u32);
    out.push(SPACE);
    push_decimal(out, p.green as u32);
    out.push(SPACE);
    push_decimal(out, p.blue as u32);
    out.push(NEWLINE);
    assert(out@ =~= start + pixel_line(p));
}

/// Appends the lines of `pixels`, in order, to `out`.
pub fn write_pixels(out: &mut Vec<u8>, pixels: &Vec<Pixel>)
    ensures
        final(out)@ == old(out)@ + pixel_lines(pixels@),
{
    let ghost start = out@;
    let mut i: usize = 0;
    while i < pixels.len()
        invariant
            i <= pixels.len(),
            out@ == start + pixel_lines(pixels@.take(i as int)),
        decreases pixels.len() - i,
    {
        let ghost before = out@;
        write_pixel(out, pixels[i]);
        proof {
            let next = pixels@.take(i + 1);
            assert(next.drop_last() =~= pixels@.take(i as int));
            assert(next.last() == pixels@[i as int]);
            assert(out@ =~= start + pixel_lines(next));
        }
        i = i + 1;
    }
    assert(pixels@.take(pixels.len() as int) =~= pixels@);
}

/// Encodes a `width` by `height` image whose pixels are listed row by row,
/// top row first. Fails exactly when the number of pixels is not
/// `width * height`.
pub fn encode(width: u32, height: u32, pixels: &Vec<Pixel>) -> (r: Result<Vec<u8>, EncodeError>)
    ensures
        r is Ok <==> pixels.len() == width * height,
        r matches Ok(bytes) ==> bytes@ == image(width as nat, height as nat, pixels@),
        r matches Err(e) ==> e == EncodeError::PixelCount,
{
    proof {
        assert(width as u64 * height as u64 <= 0xffff_ffffu64 * 0xffff_ffffu64) by (nonlinear_arith)
            requires
                width <= 0xffff_ffffu32,
                height <= 0xffff_ffffu32,
        ;
    }
    let count = width as u64 * height as u64;
    if pixels.len() as u64 != count {
        return Err(EncodeError::PixelCount);
    }
    let mut out: Vec<u8> = Vec::new();
    write_header(&mut out, width, height);
    write_pixels(&mut out, pixels);
    assert(out@ =~= image(width as nat, height as nat, pixels@));
    Ok(out)
}

/// Whether `b` is an ASCII decimal digit.
pub open spec fn is_digit(b: u8) -> bool {
    ZERO <= b && b <= ZERO + 9
}

/// The number that the ASCII digits `s` spell in base ten.
pub open spec fn digits_value(s: Seq<u8>) -> int
    decreases s.len(),
{
    if s.len() == 0 {
        0
    } else {
        digits_value(s.drop_last()) * 10 + (s.last() - ZERO)
    }
}

/// The number of line feeds in `s`.
pub open spec fn line_count(s: Seq<u8>) -> nat
    decreases s.len(),
{
    if s.len() == 0 {
        0
    } else {
        line_count(s.drop_last()) + if s.last() == NEWLINE {
            1nat
        } else {
            0nat
        }
    }
}

/// The decimal form of a number is made of digits only, and reads back as
/// that number.
pub proof fn lemma_decimal_reads_back(n: nat)
    ensures
        decimal(n).len() > 0,
        forall|i: int| 0 <= i < decimal(n).len() ==> is_digit(#[trigger] decimal(n)[i]),
        digits_value(decimal(n)) == n,
    decreases n,
{
    if n >= 10 {
        lemma_decimal_reads_back(n / 10);
        let d = decimal(n);
        assert(d.drop_last() =~= decimal(n / 10));
        assert forall|i: int| 0 <= i < d.len() implies is_digit(#[trigger] d[i]) by {
            if i < d.len() - 1 {
                assert(d[i] == decimal(n / 10)[i]);
            }
        }
    } else {
        reveal_with_fuel(digits_value, 2);
        assert(decimal(n).drop_last() =~= Seq::<u8>::empty());
    }
}

/// Line feeds of a concatenation add up.
pub proof fn lemma_line_count_concat(a: Seq<u8>, b: Seq<u8>)
    ensures
        line_count(a + b) == line_count(a) + line_count(b),
    decreases b.len(),
{
    if b.len() == 0 {
        assert(a + b =~= a);
    } else {
        lemma_line_count_concat(a, b.drop_last());
        assert((a + b).drop_last() =~= a + b.drop_last());
    }
}

/// A single byte is one line feed, or none.
pub proof fn lemma_line_count_byte(b: u8)
    ensures
        line_count(seq![b]) == if b == NEWLINE {
            1nat
        } else {
            0nat
        },
{
    reveal_with_fuel(line_count, 2);
    assert(seq![b].drop_last() =~= Seq::<u8>::empty());
}

/// The decimal form of a number holds no line feed.
pub proof fn lemma_decimal_one_line(n: nat)
    ensures
        line_count(decimal(n)) == 0,
    decreases n,
{
    if n >= 10 {
        lemma_decimal_one_line(n / 10);
        assert(decimal(n).drop_last() =~= decimal(n / 10));
    } else {
        reveal_with_fuel(line_count, 2);
        assert(decimal(n).drop_last() =~= Seq::<u8>::empty());
    }
}

/// Each pixel takes exactly one line.
pub proof fn lemma_pixel_one_line(p: Pixel)
    ensures
        line_count(pixel_line(p)) == 1,
{
    lemma_decimal_one_line(p.red as nat);
    lemma_decimal_one_line(p.green as nat);
    lemma_decimal_one_line(p.blue as nat);
    let sp = seq![SPACE];
    let nl = seq![NEWLINE];
    lemma_line_count_byte(SPACE);
    lemma_line_count_byte(NEWLINE);
    let r = decimal(p.red as nat);
    let g = decimal(p.green as nat);
    let b = decimal(p.blue as nat);
    lemma_line_count_concat(r, sp);
    lemma_line_count_concat(r + sp, g);
    lemma_line_count_concat(r + sp + g, sp);
    lemma_line_count_concat(r + sp + g + sp, b);
    lemma_line_count_concat(r + sp + g + sp + b, nl);
}

/// The header takes exactly three lines.
pub proof fn lemma_header_three_lines(width: nat, height: nat)
    ensures
        line_count(header(width, height)) == 3,
{
    lemma_decimal_one_line(width);
    lemma_decimal_one_line(height);
    lemma_decimal_one_line(MAX_CHANNEL as nat);
    let magic = seq![LETTER_P, DIGIT_THREE, NEWLINE];
    let sp = seq![SPACE];
    let nl = seq![NEWLINE];
    lemma_line_count_byte(LETTER_P);
    lemma_line_count_byte(DIGIT_THREE);
    lemma_line_count_byte(SPACE);
    lemma_line_count_byte(NEWLINE);
    lemma_line_count_concat(seq![LETTER_P], seq![DIGIT_THREE]);
    lemma_line_count_concat(seq![LETTER_P, DIGIT_THREE], nl);
    assert(seq![LETTER_P] + seq![DIGIT_THREE] =~= seq![LETTER_P, DIGIT_THREE]);
    assert(seq![LETTER_P, DIGIT_THREE] + nl =~= magic);
    let w = decimal(width);
    let h = decimal(height);
    let m = decimal(MAX_CHANNEL as nat);
    lemma_line_count_concat(magic, w);
    lemma_line_count_concat(magic + w, sp);
    lemma_line_count_concat(magic + w + sp, h);
    lemma_line_count_concat(magic + w + sp + h, nl);
    lemma_line_count_concat(magic + w + sp + h + nl, m);
    lemma_line_count_concat(magic + w + sp + h + nl + m, nl);
}

/// The pixel lines of `ps` number exactly as many as the pixels.
pub proof fn lemma_pixel_lines_count(ps: Seq<Pixel>)
    ensures
        line_count(pixel_lines(ps)) == ps.len(),
    decreases ps.len(),
{
    if ps.len() > 0 {
        lemma_pixel_lines_count(ps.drop_last());
        lemma_pixel_one_line(ps.last());
        lemma_line_count_concat(pixel_lines(ps.drop_last()), pixel_line(ps.last()));
    }
}

/// An encoded `width` by `height` image starts with its header and holds
/// three header lines plus one line per pixel, `width * height` in all.
pub proof fn lemma_image_layout(width: nat, height: nat, ps: Seq<Pixel>)
    requires
        ps.len() == width * height,
    ensures
        image(width, height, ps).take(header(width, height).len() as int) == header(width, height),
        line_count(image(width, height, ps)) == 3 + width * height,
{
    assert(image(width, height, ps).take(header(width, height).len() as int) =~= header(
        width,
        height,
    ));
    lemma_header_three_lines(width, height);
    lemma_pixel_lines_count(ps);
    lemma_line_count_concat(header(width, height), pixel_lines(ps));
}

} // verus!
