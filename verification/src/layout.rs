//! Per-frame layout: the total advance width of the formatted clock string,
//! the centered start position on the character grid, and the left-to-right
//! glyph placement the renderer draws from. Recomputed every frame, never
//! kept.

use vstd::prelude::*;
use crate::duration::{all_digits, is_digit_char};
use crate::glyphs::{char_width, is_glyph_char, spec_glyph_width};
use crate::timefmt::{remain_to_fmt, spec_dec, spec_fmt, spec_pad2};

verus! {

/// The total advance width of a string: the sum of its characters' glyph
/// widths, in order.
pub open spec fn spec_total_width(s: Seq<char>) -> nat
    decreases s.len(),
{
    if s.len() == 0 {
        0
    } else {
        spec_total_width(s.drop_last()) + spec_glyph_width(s.last())
    }
}

/// The column a block of total width `t` starts at to sit centered on a
/// surface of width `w`, by truncating integer halves; clamped to zero when
/// the surface is narrower than the block.
pub open spec fn spec_start_col(w: nat, t: nat) -> nat {
    if t / 2 <= w / 2 {
        (w / 2 - t / 2) as nat
    } else {
        0
    }
}

/// The row the six-row glyph block starts at to sit vertically centered,
/// with a slight upward bias; clamped to zero on very short surfaces.
pub open spec fn spec_start_row(h: nat) -> nat {
    if h / 2 >= 3 {
        (h / 2 - 3) as nat
    } else {
        0
    }
}

/// One glyph's place in a frame: its character and the column and row its
/// bitmap's top-left corner is drawn at.
#[derive(Clone, Copy, PartialEq, Eq, Structural, Debug)]
pub struct GlyphPos {
    pub ch: char,
    pub col: usize,
    pub row: usize,
}

/// Every character of the sequence has a glyph.
pub open spec fn all_glyph_chars(s: Seq<char>) -> bool {
    forall|i: int| 0 <= i < s.len() ==> is_glyph_char(#[trigger] s[i])
}

/// A prefix never advances further than the whole string.
proof fn lemma_total_width_prefix(s: Seq<char>, k: int)
    requires
        0 <= k <= s.len(),
    ensures
        spec_total_width(s.subrange(0, k)) <= spec_total_width(s),
    decreases s.len() - k,
{
    if k == s.len() {
        assert(s.subrange(0, k) =~= s);
    } else {
        assert(s.subrange(0, k + 1).drop_last() =~= s.subrange(0, k));
        lemma_total_width_prefix(s, k + 1);
    }
}

/// No glyph is wider than seven columns, so no string advances past seven
/// columns per character.
proof fn lemma_total_width_le(s: Seq<char>)
    ensures
        spec_total_width(s) <= 7 * s.len(),
    decreases s.len(),
{
    if s.len() > 0 {
        lemma_total_width_le(s.drop_last());
    }
}

/// Ten to the `k`.
spec fn pow10(k: nat) -> nat
    decreases k,
{
    if k == 0 {
        1
    } else {
        10 * pow10((k - 1) as nat)
    }
}

/// A number below `10^k` has at most `k` decimal digits.
proof fn lemma_dec_len(n: nat, k: nat)
    requires
        n < pow10(k),
        k >= 1,
    ensures
        spec_dec(n).len() <= k,
    decreases k,
{
    if n >= 10 {
        assert(pow10(k) == 10 * pow10((k - 1) as nat));
        assert(n / 10 < pow10((k - 1) as nat)) by (nonlinear_arith)
            requires
                n < 10 * pow10((k - 1) as nat),
        ;
        lemma_dec_len(n / 10, (k - 1) as nat);
    }
}

/// The decimal digits of a number are digit characters.
proof fn lemma_dec_digits(n: nat)
    ensures
        all_digits(spec_dec(n)),
    decreases n,
{
    if n >= 10 {
        lemma_dec_digits(n / 10);
    }
}

/// So are the characters of a zero-padded field.
proof fn lemma_pad2_digits(n: nat)
    ensures
        all_digits(spec_pad2(n)),
        n < 100 ==> spec_pad2(n).len() == 2,
{
    lemma_dec_digits(n);
    if n < 10 {
        assert(spec_dec(n).len() == 1);
    } else if n < 100 {
        assert(spec_dec(n / 10).len() == 1);
        assert(spec_dec(n).len() == 2);
    }
}

/// Glyph coverage composes over concatenation.
proof fn lemma_glyph_chars_concat(a: Seq<char>, b: Seq<char>)
    requires
        all_glyph_chars(a),
        all_glyph_chars(b),
    ensures
        all_glyph_chars(a + b),
{
    assert forall|i: int| 0 <= i < (a + b).len() implies is_glyph_char(#[trigger] (a + b)[i]) by {
        if i < a.len() {
            assert((a + b)[i] == a[i]);
        } else {
            assert((a + b)[i] == b[i - a.len()]);
        }
    }
}

/// Digit runs are covered by the glyph table.
proof fn lemma_digits_are_glyphs(s: Seq<char>)
    requires
        all_digits(s),
    ensures
        all_glyph_chars(s),
{
    assert forall|i: int| 0 <= i < s.len() implies is_glyph_char(#[trigger] s[i]) by {
        assert(is_digit_char(s[i]));
    }
}

/// The glyph table covers every clock string: each character the formatter
/// can produce — a digit or the colon — has a glyph, so a lookup while
/// drawing can never fail. The string is also short: at most 22 characters
/// and at most 154 columns of advance width, for any remaining time a `u64`
/// can hold.
pub proof fn lemma_fmt_renderable(n: nat)
    requires
        n <= u64::MAX,
    ensures
        all_glyph_chars(spec_fmt(n)),
        spec_fmt(n).len() <= 22,
        spec_total_width(spec_fmt(n)) <= 154,
{
    let hours = n / 3600;
    let minutes = (n % 3600) / 60;
    let seconds = n % 60;
    let colon = seq![':'];
    assert(all_glyph_chars(colon));
    lemma_pad2_digits(hours);
    lemma_pad2_digits(minutes);
    lemma_pad2_digits(seconds);
    lemma_digits_are_glyphs(spec_pad2(hours));
    lemma_digits_are_glyphs(spec_pad2(minutes));
    lemma_digits_are_glyphs(spec_pad2(seconds));
    if hours == 0 {
        lemma_glyph_chars_concat(spec_pad2(minutes), colon);
        lemma_glyph_chars_concat(spec_pad2(minutes) + colon, spec_pad2(seconds));
    } else {
        // The hours field is at most sixteen digits wide.
        reveal_with_fuel(pow10, 17);
        assert(pow10(16) == 10000000000000000);
        assert(hours < pow10(16));
        if hours >= 10 {
            lemma_dec_len(hours, 16);
        }
        assert(spec_pad2(hours).len() <= 16);
        lemma_glyph_chars_concat(spec_pad2(hours), colon);
        lemma_glyph_chars_concat(spec_pad2(hours) + colon, spec_pad2(minutes));
        lemma_glyph_chars_concat(spec_pad2(hours) + colon + spec_pad2(minutes), colon);
        lemma_glyph_chars_concat(
            spec_pad2(hours) + colon + spec_pad2(minutes) + colon,
            spec_pad2(seconds),
        );
    }
    lemma_total_width_le(spec_fmt(n));
}

/// The total advance width of a string, as `spec_total_width` gives it.
pub fn total_width(s: &str) -> (r: usize)
    requires
        spec_total_width(s@) <= usize::MAX,
    ensures
        r as nat == spec_total_width(s@),
{
    let n = s.unicode_len();
    let mut acc: usize = 0;
    let mut k: usize = 0;
    while k < n
        invariant
            k <= n,
            n == s@.len(),
            spec_total_width(s@) <= usize::MAX,
            acc as nat == spec_total_width(s@.subrange(0, k as int)),
        decreases n - k,
    {
        let w = char_width(s.get_char(k));
        proof {
            assert(s@.subrange(0, k + 1).drop_last() =~= s@.subrange(0, k as int));
            lemma_total_width_prefix(s@, k + 1);
        }
        acc = acc + w;
        k = k + 1;
    }
    proof {
        assert(s@.subrange(0, n as int) =~= s@);
    }
    acc
}

/// The centered start column for a block of width `total` on a surface of
/// width `surface_width`.
pub fn start_col(surface_width: usize, total: usize) -> (r: usize)
    ensures
        r as nat == spec_start_col(surface_width as nat, total as nat),
{
    let half_w = surface_width / 2;
    let half_t = total / 2;
    if half_t <= half_w {
        half_w - half_t
    } else {
        0
    }
}

/// The start row that centers the six-row glyph block on a surface of
/// height `surface_height`.
pub fn start_row(surface_height: usize) -> (r: usize)
    ensures
        r as nat == spec_start_row(surface_height as nat),
{
    let half_h = surface_height / 2;
    if half_h >= 3 {
        half_h - 3
    } else {
        0
    }
}

/// Lay one frame out: the clock string for `remain` seconds, each character
/// placed left to right from the centered start column, every glyph on the
/// same centered start row, each column advancing by the previous glyph's
/// width.
pub fn plan_frame(remain: u64, surface_width: usize, surface_height: usize) -> (r: Vec<GlyphPos>)
    ensures
        ({
            let f = spec_fmt(remain as nat);
            &&& r@.len() == f.len()
            &&& forall|i: int| 0 <= i < f.len() ==> (#[trigger] r@[i]).ch == f[i]
            &&& forall|i: int|
                0 <= i < f.len() ==> (#[trigger] r@[i]).row == spec_start_row(
                    surface_height as nat,
                )
            &&& (f.len() > 0 ==> r@[0].col == spec_start_col(
                surface_width as nat,
                spec_total_width(f),
            ))
            &&& forall|i: int|
                0 <= i < f.len() - 1 ==> (#[trigger] r@[i + 1]).col == r@[i].col
                    + spec_glyph_width(f[i])
        }),
{
    let fmt = remain_to_fmt(remain);
    let s: &str = fmt.as_str();
    proof {
        lemma_fmt_renderable(remain as nat);
    }
    let total = total_width(s);
    let col0 = start_col(surface_width, total);
    let row = start_row(surface_height);
    let n = s.unicode_len();
    let mut out: Vec<GlyphPos> = Vec::new();
    let mut col = col0;
    let mut k: usize = 0;
    while k < n
        invariant
            k <= n,
            n == s@.len(),
            s@ == spec_fmt(remain as nat),
            spec_total_width(s@) <= 154,
            col0 as nat == spec_start_col(surface_width as nat, spec_total_width(s@)),
            col0 <= surface_width / 2,
            row as nat == spec_start_row(surface_height as nat),
            out@.len() == k,
            col as nat == col0 as nat + spec_total_width(s@.subrange(0, k as int)),
            forall|i: int| 0 <= i < k ==> (#[trigger] out@[i]).ch == s@[i],
            forall|i: int| 0 <= i < k ==> (#[trigger] out@[i]).row == row,
            forall|i: int|
                0 <= i < k ==> (#[trigger] out@[i]).col as nat == col0 as nat + spec_total_width(
                    s@.subrange(0, i),
                ),
        decreases n - k,
    {
        let c = s.get_char(k);
        out.push(GlyphPos { ch: c, col, row });
        let w = char_width(c);
        proof {
            assert(s@.subrange(0, k + 1).drop_last() =~= s@.subrange(0, k as int));
            lemma_total_width_prefix(s@, k + 1);
        }
        col = col + w;
        k = k + 1;
    }
    proof {
        let f = spec_fmt(remain as nat);
        assert(s@.subrange(0, 0) =~= Seq::<char>::empty());
        assert forall|i: int| 0 <= i < f.len() - 1 implies (#[trigger] out@[i + 1]).col == out@[
            i
        ].col + spec_glyph_width(f[i]) by {
            assert(s@.subrange(0, i + 1).drop_last() =~= s@.subrange(0, i));
        }
    }
    out
}

} // verus!
