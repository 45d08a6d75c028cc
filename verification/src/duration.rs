//! Parsing a duration string of the shape `(\d+h)?(\d+m)?(\d+s)?` — an
//! optional hours part, then an optional minutes part, then an optional
//! seconds part, each a non-empty digit run followed by its marker letter —
//! into a total number of seconds, `3600·H + 60·M + S`.
//!
//! The grammar is stated twice: as a deterministic scan (`spec_duration`),
//! which the executable parser is proved to implement exactly, and as the
//! declarative decomposition into parts (`duration_parts`), which
//! `lemma_grammar_value` proves the scan agrees with.

use vstd::prelude::*;

verus! {

/// Why a duration string was rejected: it does not match the grammar, or a
/// value in it does not fit the integer type.
#[derive(Clone, Copy, PartialEq, Eq, Structural, Debug)]
pub enum ParseError {
    Syntax,
    Overflow,
}

/// An ASCII decimal digit.
pub open spec fn is_digit_char(c: char) -> bool {
    48 <= c as int && c as int <= 57
}

/// The numeric value of a decimal digit character.
pub open spec fn digit_val(c: char) -> nat
    recommends
        is_digit_char(c),
{
    (c as int - 48) as nat
}

/// Every character of the sequence is a decimal digit.
pub open spec fn all_digits(s: Seq<char>) -> bool {
    forall|i: int| 0 <= i < s.len() ==> is_digit_char(#[trigger] s[i])
}

/// The value of a digit sequence read as a decimal numeral.
pub open spec fn digits_val(s: Seq<char>) -> nat
    decreases s.len(),
{
    if s.len() == 0 {
        0
    } else {
        digits_val(s.drop_last()) * 10 + digit_val(s.last())
    }
}

/// The first position at or after `i` that does not hold a digit.
pub open spec fn digit_run_end(s: Seq<char>, i: int) -> int
    recommends
        0 <= i <= s.len(),
    decreases s.len() - i,
{
    if 0 <= i < s.len() && is_digit_char(s[i]) {
        digit_run_end(s, i + 1)
    } else {
        i
    }
}

/// Where parsing one optional `<digits><marker>` part from position `i`
/// leaves the scan: just past the marker when a non-empty digit run followed
/// by exactly `marker` is there, and at `i` unchanged otherwise.
pub open spec fn component_end(s: Seq<char>, i: int, marker: char) -> int
    recommends
        0 <= i <= s.len(),
{
    let j = digit_run_end(s, i);
    if j > i && j < s.len() && s[j] == marker {
        j + 1
    } else {
        i
    }
}

/// The numeric value of one optional `<digits><marker>` part at position
/// `i`: the digit run's value when the part is present, and zero otherwise.
pub open spec fn component_val(s: Seq<char>, i: int, marker: char) -> nat
    recommends
        0 <= i <= s.len(),
{
    let j = digit_run_end(s, i);
    if j > i && j < s.len() && s[j] == marker {
        digits_val(s.subrange(i, j))
    } else {
        0
    }
}

/// The total seconds a duration string denotes: the hours, minutes and
/// seconds parts scanned in that order, each optional, and the whole string
/// consumed; `None` when the string does not match the grammar.
pub open spec fn spec_duration(s: Seq<char>) -> Option<nat> {
    let i1 = component_end(s, 0, 'h');
    let h = component_val(s, 0, 'h');
    let i2 = component_end(s, i1, 'm');
    let m = component_val(s, i1, 'm');
    let i3 = component_end(s, i2, 's');
    let sec = component_val(s, i2, 's');
    if i3 == s.len() {
        Some(3600 * h + 60 * m + sec)
    } else {
        None
    }
}

/// One optional part of the concrete string: empty when absent, the digits
/// followed by the marker letter when present.
pub open spec fn part_seq(digits: Seq<char>, marker: char) -> Seq<char> {
    if digits.len() == 0 {
        Seq::empty()
    } else {
        digits.push(marker)
    }
}

/// `s` decomposes into an optional hours part with digits `h`, an optional
/// minutes part with digits `m`, and an optional seconds part with digits
/// `sec`, in that order.
pub open spec fn duration_parts(s: Seq<char>, h: Seq<char>, m: Seq<char>, sec: Seq<char>) -> bool {
    &&& all_digits(h)
    &&& all_digits(m)
    &&& all_digits(sec)
    &&& s == part_seq(h, 'h') + part_seq(m, 'm') + part_seq(sec, 's')
}

/// `s` matches the duration grammar: some decomposition into parts exists.
pub open spec fn valid_duration(s: Seq<char>) -> bool {
    exists|h: Seq<char>, m: Seq<char>, sec: Seq<char>| duration_parts(s, h, m, sec)
}

/// A digit run ends exactly where the digits stop.
proof fn lemma_digit_run_end_is(s: Seq<char>, i: int, k: int)
    requires
        0 <= i <= k <= s.len(),
        forall|j: int| i <= j < k ==> is_digit_char(#[trigger] s[j]),
        k == s.len() || !is_digit_char(s[k]),
    ensures
        digit_run_end(s, i) == k,
    decreases k - i,
{
    if i < k {
        lemma_digit_run_end_is(s, i + 1, k);
    }
}

/// A digit run stays inside the sequence and holds digits only, up to a
/// non-digit or the end.
proof fn lemma_digit_run_end_bounds(s: Seq<char>, i: int)
    requires
        0 <= i <= s.len(),
    ensures
        i <= digit_run_end(s, i) <= s.len(),
        forall|j: int| i <= j < digit_run_end(s, i) ==> is_digit_char(#[trigger] s[j]),
        digit_run_end(s, i) < s.len() ==> !is_digit_char(s[digit_run_end(s, i)]),
    decreases s.len() - i,
{
    if i < s.len() && is_digit_char(s[i]) {
        lemma_digit_run_end_bounds(s, i + 1);
    }
}

/// A present part — digits `d` then `marker` — is consumed whole and yields
/// the digits' value.
proof fn lemma_component_present(s: Seq<char>, i: int, d: Seq<char>, marker: char)
    requires
        0 <= i,
        d.len() > 0,
        all_digits(d),
        !is_digit_char(marker),
        i + d.len() + 1 <= s.len(),
        s.subrange(i, i + d.len() as int) == d,
        s[i + d.len()] == marker,
    ensures
        component_end(s, i, marker) == i + d.len() + 1,
        component_val(s, i, marker) == digits_val(d),
{
    assert forall|j: int| i <= j < i + d.len() implies is_digit_char(#[trigger] s[j]) by {
        assert(s[j] == s.subrange(i, i + d.len() as int)[j - i]);
    }
    lemma_digit_run_end_is(s, i, i + d.len());
}

/// A part whose wanted marker is not the letter after the digit run is
/// skipped: the scan stays at `i` with value zero.
proof fn lemma_component_skip(s: Seq<char>, i: int, d: Seq<char>, want: char)
    requires
        0 <= i,
        i + d.len() < s.len(),
        all_digits(d),
        s.subrange(i, i + d.len() as int) == d,
        !is_digit_char(s[i + d.len()]),
        s[i + d.len()] != want,
    ensures
        component_end(s, i, want) == i,
        component_val(s, i, want) == 0,
{
    assert forall|j: int| i <= j < i + d.len() implies is_digit_char(#[trigger] s[j]) by {
        assert(s[j] == s.subrange(i, i + d.len() as int)[j - i]);
    }
    lemma_digit_run_end_is(s, i, i + d.len());
}

/// The grammar law: a string built from digit parts `h`, `m`, `sec` — each
/// optional — parses, and its value is exactly `3600·H + 60·M + S`.
pub proof fn lemma_grammar_value(h: Seq<char>, m: Seq<char>, sec: Seq<char>)
    requires
        all_digits(h),
        all_digits(m),
        all_digits(sec),
    ensures
        spec_duration(part_seq(h, 'h') + part_seq(m, 'm') + part_seq(sec, 's'))
            == Some(3600 * digits_val(h) + 60 * digits_val(m) + digits_val(sec)),
{
    let ph = part_seq(h, 'h');
    let pm = part_seq(m, 'm');
    let ps = part_seq(sec, 's');
    let s = ph + pm + ps;
    assert(!is_digit_char('h'));
    assert(!is_digit_char('m'));
    assert(!is_digit_char('s'));

    // The hours component: consumed when present, skipped past nothing when
    // absent, whatever stands next.
    if h.len() > 0 {
        assert(s.subrange(0, h.len() as int) =~= h);
        assert(s[h.len() as int] == 'h');
        lemma_component_present(s, 0, h, 'h');
    } else {
        if m.len() > 0 {
            assert(s.subrange(0, m.len() as int) =~= m);
            assert(s[m.len() as int] == 'm');
            lemma_component_skip(s, 0, m, 'h');
        } else if sec.len() > 0 {
            assert(s.subrange(0, sec.len() as int) =~= sec);
            assert(s[sec.len() as int] == 's');
            lemma_component_skip(s, 0, sec, 'h');
        } else {
            assert(s.len() == 0);
            assert(digit_run_end(s, 0) == 0);
        }
    }
    let i1 = component_end(s, 0, 'h');
    assert(i1 == ph.len());
    assert(component_val(s, 0, 'h') == digits_val(h));

    // The minutes component at the position the hours component left.
    if m.len() > 0 {
        assert(s.subrange(i1, i1 + m.len() as int) =~= m);
        assert(s[i1 + m.len()] == 'm');
        lemma_component_present(s, i1, m, 'm');
    } else {
        if sec.len() > 0 {
            assert(s.subrange(i1, i1 + sec.len() as int) =~= sec);
            assert(s[i1 + sec.len()] == 's');
            lemma_component_skip(s, i1, sec, 'm');
        } else {
            assert(i1 == s.len());
            assert(digit_run_end(s, i1) == i1);
        }
    }
    let i2 = component_end(s, i1, 'm');
    assert(i2 == ph.len() + pm.len());
    assert(component_val(s, i1, 'm') == digits_val(m));

    // The seconds component at the position the minutes component left.
    if sec.len() > 0 {
        assert(s.subrange(i2, i2 + sec.len() as int) =~= sec);
        assert(s[i2 + sec.len()] == 's');
        lemma_component_present(s, i2, sec, 's');
    } else {
        assert(i2 == s.len());
        assert(digit_run_end(s, i2) == i2);
    }
    let i3 = component_end(s, i2, 's');
    assert(i3 == s.len());
    assert(component_val(s, i2, 's') == digits_val(sec));
}

/// A matched component is exactly one part of the string: its digits
/// followed by the marker; a skipped component is the empty part.
proof fn lemma_component_is_part(s: Seq<char>, i: int, marker: char)
    requires
        0 <= i <= s.len(),
        !is_digit_char(marker),
    ensures
        ({
            let j = digit_run_end(s, i);
            let e = component_end(s, i, marker);
            let d = if j > i && j < s.len() && s[j] == marker {
                s.subrange(i, j)
            } else {
                Seq::<char>::empty()
            };
            &&& i <= e <= s.len()
            &&& all_digits(d)
            &&& s.subrange(i, e) == part_seq(d, marker)
            &&& component_val(s, i, marker) == digits_val(d)
        }),
{
    lemma_digit_run_end_bounds(s, i);
    let j = digit_run_end(s, i);
    if j > i && j < s.len() && s[j] == marker {
        let d = s.subrange(i, j);
        assert(s.subrange(i, j + 1) =~= d.push(marker));
    } else {
        assert(s.subrange(i, i) =~= Seq::<char>::empty());
    }
}

/// Only strings of the grammar parse: a string the scan accepts decomposes
/// into an hours, a minutes and a seconds part.
pub proof fn lemma_parse_sound(s: Seq<char>)
    requires
        spec_duration(s) is Some,
    ensures
        valid_duration(s),
{
    let i1 = component_end(s, 0, 'h');
    let i2 = component_end(s, i1, 'm');
    let i3 = component_end(s, i2, 's');
    assert(!is_digit_char('h'));
    assert(!is_digit_char('m'));
    assert(!is_digit_char('s'));
    lemma_component_is_part(s, 0, 'h');
    lemma_component_is_part(s, i1, 'm');
    lemma_component_is_part(s, i2, 's');
    let j0 = digit_run_end(s, 0);
    let hd = if j0 > 0 && j0 < s.len() && s[j0] == 'h' {
        s.subrange(0, j0)
    } else {
        Seq::<char>::empty()
    };
    let j1 = digit_run_end(s, i1);
    let md = if j1 > i1 && j1 < s.len() && s[j1] == 'm' {
        s.subrange(i1, j1)
    } else {
        Seq::<char>::empty()
    };
    let j2 = digit_run_end(s, i2);
    let sd = if j2 > i2 && j2 < s.len() && s[j2] == 's' {
        s.subrange(i2, j2)
    } else {
        Seq::<char>::empty()
    };
    assert(i3 == s.len());
    assert(s =~= s.subrange(0, i1) + s.subrange(i1, i2) + s.subrange(i2, i3));
    assert(duration_parts(s, hd, md, sd));
}

/// The scan and the grammar agree: a string parses exactly when some
/// decomposition into parts exists, and then the parsed total is the
/// decomposition's `3600·H + 60·M + S`.
pub proof fn lemma_duration_iff(s: Seq<char>)
    ensures
        spec_duration(s) is Some <==> valid_duration(s),
{
    if spec_duration(s) is Some {
        lemma_parse_sound(s);
    }
    if valid_duration(s) {
        let (h, m, sec) = choose|h: Seq<char>, m: Seq<char>, sec: Seq<char>|
            duration_parts(s, h, m, sec);
        lemma_grammar_value(h, m, sec);
    }
}

/// The empty string matches the grammar trivially — every part absent — and
/// denotes a zero-second duration.
pub proof fn lemma_empty_duration()
    ensures
        spec_duration(Seq::<char>::empty()) == Some(0nat),
        valid_duration(Seq::<char>::empty()),
{
    let e = Seq::<char>::empty();
    lemma_grammar_value(e, e, e);
    assert(part_seq(e, 'h') + part_seq(e, 'm') + part_seq(e, 's') =~= e);
    assert(duration_parts(e, e, e, e));
}

/// Whether a character is a decimal digit.
fn is_digit(c: char) -> (r: bool)
    ensures
        r == is_digit_char(c),
{
    let v = c as u32;
    48 <= v && v <= 57
}

/// Scan the digit run that starts at `from`.
fn scan_digits(s: &str, from: usize) -> (j: usize)
    requires
        from as int <= s@.len(),
    ensures
        j == digit_run_end(s@, from as int),
        from <= j,
        j as int <= s@.len(),
{
    let n = s.unicode_len();
    let mut j = from;
    while j < n && is_digit(s.get_char(j))
        invariant
            from <= j,
            j as int <= s@.len(),
            n == s@.len(),
            digit_run_end(s@, from as int) == digit_run_end(s@, j as int),
        decreases s@.len() - j,
    {
        j = j + 1;
    }
    j
}

/// Read the digits in `[from, to)` as a decimal number, or report that the
/// number does not fit in a `u64`.
fn parse_digits(s: &str, from: usize, to: usize) -> (r: Option<u64>)
    requires
        from <= to,
        to as int <= s@.len(),
        forall|k: int| from <= k < to ==> is_digit_char(#[trigger] s@[k]),
    ensures
        (match r {
            Some(v) => v as nat == digits_val(s@.subrange(from as int, to as int)),
            None => digits_val(s@.subrange(from as int, to as int)) > u64::MAX,
        }),
{
    let mut acc: u64 = 0;
    let mut overflow = false;
    let mut k = from;
    while k < to
        invariant
            from <= k <= to,
            to as int <= s@.len(),
            forall|i: int| from <= i < to ==> is_digit_char(#[trigger] s@[i]),
            !overflow ==> acc as nat == digits_val(s@.subrange(from as int, k as int)),
            overflow ==> digits_val(s@.subrange(from as int, k as int)) > u64::MAX,
        decreases to - k,
    {
        let c = s.get_char(k);
        let d: u64 = (c as u32 - 48) as u64;
        proof {
            assert(s@.subrange(from as int, k + 1).drop_last() =~= s@.subrange(
                from as int,
                k as int,
            ));
            assert(s@.subrange(from as int, k + 1).last() == s@[k as int]);
        }
        // Once the prefix is too large, a longer numeral only grows: the
        // overflow stands through the remaining digits.
        if !overflow {
            match acc.checked_mul(10) {
                Some(shifted) => {
                    match shifted.checked_add(d) {
                        Some(next) => {
                            acc = next;
                        },
                        None => {
                            overflow = true;
                        },
                    }
                },
                None => {
                    overflow = true;
                },
            }
        }
        k = k + 1;
    }
    proof {
        assert(s@.subrange(from as int, to as int) == s@.subrange(from as int, k as int));
    }
    if overflow {
        None
    } else {
        Some(acc)
    }
}

/// Parse one optional `<digits><marker>` part starting at `from`: where the
/// scan ends, and the part's value — `None` when it does not fit in a `u64`.
fn parse_component(s: &str, from: usize, marker: char) -> (r: (usize, Option<u64>))
    requires
        from as int <= s@.len(),
    ensures
        r.0 == component_end(s@, from as int, marker),
        from <= r.0,
        r.0 as int <= s@.len(),
        (match r.1 {
            Some(v) => v as nat == component_val(s@, from as int, marker),
            None => component_val(s@, from as int, marker) > u64::MAX,
        }),
{
    let j = scan_digits(s, from);
    let n = s.unicode_len();
    proof {
        lemma_digit_run_end_bounds(s@, from as int);
    }
    if j > from && j < n && s.get_char(j) == marker {
        let v = parse_digits(s, from, j);
        (j + 1, v)
    } else {
        (from, Some(0))
    }
}

/// Parse a duration string of the shape `(\d+h)?(\d+m)?(\d+s)?` into total
/// seconds `3600·H + 60·M + S`. `Err(Syntax)` exactly when the string does
/// not match the grammar; `Err(Overflow)` exactly when it matches but its
/// total does not fit in a `u64`.
pub fn parse_duration(s: &str) -> (r: Result<u64, ParseError>)
    ensures
        (match r {
            Ok(v) => spec_duration(s@) == Some(v as nat),
            Err(ParseError::Syntax) => spec_duration(s@) is None,
            Err(ParseError::Overflow) => spec_duration(s@) is Some && spec_duration(s@)->0
                > u64::MAX,
        }),
{
    let n = s.unicode_len();
    let (i1, hv) = parse_component(s, 0, 'h');
    let (i2, mv) = parse_component(s, i1, 'm');
    let (i3, sv) = parse_component(s, i2, 's');
    if i3 != n {
        return Err(ParseError::Syntax);
    }
    let ghost total = spec_duration(s@)->0;
    match (hv, mv, sv) {
        (Some(hn), Some(mn), Some(sn)) => {
            match hn.checked_mul(3600) {
                Some(hsec) => {
                    match mn.checked_mul(60) {
                        Some(msec) => {
                            match hsec.checked_add(msec) {
                                Some(hm) => {
                                    match hm.checked_add(sn) {
                                        Some(v) => Ok(v),
                                        None => Err(ParseError::Overflow),
                                    }
                                },
                                None => Err(ParseError::Overflow),
                            }
                        },
                        None => Err(ParseError::Overflow),
                    }
                },
                None => Err(ParseError::Overflow),
            }
        },
        _ => Err(ParseError::Overflow),
    }
}

} // verus!
