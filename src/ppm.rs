//! The ASCII PPM ("P3") image format: a three-line header followed by one
//! line per pixel holding its red, green and blue values.
use vstd::prelude::*;

use crate::decimal::{decimal, digit_char, push_decimal, push_signed, signed_decimal};

verus! {

/// A pixel's quantized red, green and blue values. Nothing clamps them, so a
/// channel may lie outside `0..=255`.
#[derive(Clone, Copy, Debug, PartialEq, Eq, Structural)]
pub struct Rgb {
    pub r: i32,
    pub g: i32,
    pub b: i32,
}

/// `P3`, the width and height, and the largest channel value `255`, one per line.
pub open spec fn header_text(width: nat, height: nat) -> Seq<char> {
    seq!['P', '3', '\n'] + decimal(width) + seq![' '] + decimal(height) + seq![
        '\n',
        '2',
        '5',
        '5',
        '\n',
    ]
}

/// The three channels in decimal, separated by spaces, ending the line.
pub open spec fn record_text(p: Rgb) -> Seq<char> {
    signed_decimal(p.r as int) + seq![' '] + signed_decimal(p.g as int) + seq![' ']
        + signed_decimal(p.b as int) + seq!['\n']
}

/// The records of `pixels`, in order.
pub open spec fn records_text(pixels: Seq<Rgb>) -> Seq<char>
    decreases pixels.len(),
{
    if pixels.len() == 0 {
        Seq::empty()
    } else {
        records_text(pixels.drop_last()) + record_text(pixels.last())
    }
}

/// A whole image file: the header, then every pixel's record.
pub open spec fn image_text(width: nat, height: nat, pixels: Seq<Rgb>) -> Seq<char> {
    header_text(width, height) + records_text(pixels)
}

/// The number of line ends in `s`.
pub open spec fn line_count(s: Seq<char>) -> nat
    decreases s.len(),
{
    if s.len() == 0 {
        0
    } else {
        line_count(s.drop_last()) + if s.last() == '\n' {
            1nat
        } else {
            0nat
        }
    }
}

/// The header line of an image of the given size.
pub fn header(width: u64, height: u64) -> (r: String)
    ensures
        r@ == header_text(width as nat, height as nat),
{
    proof {
        reveal_strlit("P3\n");
        reveal_strlit(" ");
        reveal_strlit("\n255\n");
    }
    let mut s = String::from_str("P3\n");
    push_decimal(&mut s, width);
    s.append(" ");
    push_decimal(&mut s, height);
    s.append("\n255\n");
    assert(s@ =~= header_text(width as nat, height as nat));
    s
}

/// Appends the record of one pixel to `out`.
pub fn push_record(out: &mut String, p: Rgb)
    ensures
        final(out)@ == old(out)@ + record_text(p),
{
    proof {
        reveal_strlit(" ");
        reveal_strlit("\n");
    }
    push_signed(out, p.r as i64);
    out.append(" ");
    push_signed(out, p.g as i64);
    out.append(" ");
    push_signed(out, p.b as i64);
    out.append("\n");
    assert(final(out)@ =~= old(out)@ + record_text(p));
}

/// The record of one pixel: `"<r> <g> <b>\n"`.
pub fn pixel_record(p: Rgb) -> (r: String)
    ensures
        r@ == record_text(p),
{
    let mut s = String::new();
    push_record(&mut s, p);
    assert(Seq::<char>::empty() + record_text(p) =~= record_text(p));
    s
}

/// The text of a whole image, `None` unless there is exactly one pixel for
/// each of the `width * height` places. Pixels are given in the order they are
/// written, top row first and each row from left to right.
pub fn encode_image(width: u64, height: u64, pixels: &Vec<Rgb>) -> (r: Option<String>)
    ensures
        r is Some <==> pixels@.len() == width * height,
        r matches Some(s) ==> s@ == image_text(width as nat, height as nat, pixels@),
{
    let len: usize = pixels.len();
    match width.checked_mul(height) {
        None => {
            assert(len <= u64::MAX);
            return None;
        },
        Some(n) => {
            if len as u64 != n {
                return None;
            }
        },
    }
    let mut s = header(width, height);
    let mut k: usize = 0;
    while k < pixels.len()
        invariant
            k <= pixels@.len(),
            s@ == header_text(width as nat, height as nat) + records_text(pixels@.subrange(0, k as int)),
        decreases pixels@.len() - k,
    {
        push_record(&mut s, pixels[k]);
        proof {
            let next = pixels@.subrange(0, k + 1);
            assert(next.drop_last() =~= pixels@.subrange(0, k as int));
        }
        k = k + 1;
    }
    assert(pixels@.subrange(0, k as int) =~= pixels@);
    Some(s)
}

proof fn lemma_line_count_concat(a: Seq<char>, b: Seq<char>)
    ensures
        line_count(a + b) == line_count(a) + line_count(b),
    decreases b.len(),
{
    if b.len() == 0 {
        assert(a + b =~= a);
    } else {
        assert((a + b).drop_last() =~= a + b.drop_last());
        lemma_line_count_concat(a, b.drop_last());
    }
}

proof fn lemma_line_count_single(c: char)
    ensures
        line_count(seq![c]) == if c == '\n' {
            1nat
        } else {
            0nat
        },
{
    assert(seq![c].drop_last() =~= Seq::<char>::empty());
    assert(line_count(Seq::<char>::empty()) == 0);
    assert(seq![c].last() == c);
}

proof fn lemma_decimal_line_free(n: nat)
    ensures
        line_count(decimal(n)) == 0,
    decreases n,
{
    let c = digit_char(n % 10);
    assert(c != '\n');
    if n < 10 {
        lemma_line_count_single(c);
    } else {
        lemma_decimal_line_free(n / 10);
        assert(decimal(n).drop_last() =~= decimal(n / 10));
    }
}

proof fn lemma_signed_decimal_line_free(i: int)
    ensures
        line_count(signed_decimal(i)) == 0,
{
    if i < 0 {
        lemma_decimal_line_free((-i) as nat);
        lemma_line_count_single('-');
        lemma_line_count_concat(seq!['-'], decimal((-i) as nat));
    } else {
        lemma_decimal_line_free(i as nat);
    }
}

proof fn lemma_record_one_line(p: Rgb)
    ensures
        line_count(record_text(p)) == 1,
{
    let r = signed_decimal(p.r as int);
    let g = signed_decimal(p.g as int);
    let b = signed_decimal(p.b as int);
    lemma_signed_decimal_line_free(p.r as int);
    lemma_signed_decimal_line_free(p.g as int);
    lemma_signed_decimal_line_free(p.b as int);
    lemma_line_count_single(' ');
    lemma_line_count_single('\n');
    lemma_line_count_concat(r, seq![' ']);
    lemma_line_count_concat(r + seq![' '], g);
    lemma_line_count_concat(r + seq![' '] + g, seq![' ']);
    lemma_line_count_concat(r + seq![' '] + g + seq![' '], b);
    lemma_line_count_concat(r + seq![' '] + g + seq![' '] + b, seq!['\n']);
}

proof fn lemma_header_three_lines(width: nat, height: nat)
    ensures
        line_count(header_text(width, height)) == 3,
{
    let top = seq!['P', '3', '\n'];
    let tail = seq!['\n', '2', '5', '5', '\n'];
    assert(top =~= seq!['P'] + seq!['3'] + seq!['\n']);
    assert(tail =~= seq!['\n'] + seq!['2'] + seq!['5'] + seq!['5'] + seq!['\n']);
    lemma_line_count_single('P');
    lemma_line_count_single('3');
    lemma_line_count_single('\n');
    lemma_line_count_single('2');
    lemma_line_count_single('5');
    lemma_line_count_single(' ');
    lemma_line_count_concat(seq!['P'], seq!['3']);
    lemma_line_count_concat(seq!['P'] + seq!['3'], seq!['\n']);
    lemma_line_count_concat(seq!['\n'], seq!['2']);
    lemma_line_count_concat(seq!['\n'] + seq!['2'], seq!['5']);
    lemma_line_count_concat(seq!['\n'] + seq!['2'] + seq!['5'], seq!['5']);
    lemma_line_count_concat(seq!['\n'] + seq!['2'] + seq!['5'] + seq!['5'], seq!['\n']);
    lemma_decimal_line_free(width);
    lemma_decimal_line_free(height);
    lemma_line_count_concat(top, decimal(width));
    lemma_line_count_concat(top + decimal(width), seq![' ']);
    lemma_line_count_concat(top + decimal(width) + seq![' '], decimal(height));
    lemma_line_count_concat(top + decimal(width) + seq![' '] + decimal(height), tail);
}

proof fn lemma_records_lines(pixels: Seq<Rgb>)
    ensures
        line_count(records_text(pixels)) == pixels.len(),
    decreases pixels.len(),
{
    if pixels.len() > 0 {
        lemma_records_lines(pixels.drop_last());
        lemma_record_one_line(pixels.last());
        lemma_line_count_concat(records_text(pixels.drop_last()), record_text(pixels.last()));
    }
}

/// An image of `width * height` pixels is written as exactly
/// `3 + width * height` lines: three of header and one per pixel.
pub proof fn lemma_image_line_count(width: nat, height: nat, pixels: Seq<Rgb>)
    requires
        pixels.len() == width * height,
    ensures
        line_count(image_text(width, height, pixels)) == 3 + width * height,
{
    lemma_header_three_lines(width, height);
    lemma_records_lines(pixels);
    lemma_line_count_concat(header_text(width, height), records_text(pixels));
}

} // verus!
