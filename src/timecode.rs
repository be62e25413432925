//! How the scraper reads the player's time display, `"elapsed / total"`,
//! where each side is colon-separated and read least significant first
//! (seconds, minutes, hours, ...), each field contributing `value * 60^position`.

use vstd::prelude::*;
use crate::text::chars_of;

verus! {

pub open spec fn is_digit(c: char) -> bool {
    '0' <= c && c <= '9'
}

pub open spec fn all_digits(s: Seq<char>) -> bool {
    forall|i: int| 0 <= i < s.len() ==> is_digit(#[trigger] s[i])
}

/// The number that a run of decimal digits spells.
pub open spec fn decimal_value(s: Seq<char>) -> nat
    decreases s.len(),
{
    if s.len() == 0 {
        0
    } else {
        decimal_value(s.drop_last()) * 10 + (s.last() as nat - '0' as nat) as nat
    }
}

/// A field's number: a run of decimal digits gives its value; the empty
/// field and any other text, including digits with spaces around them,
/// give 0. (The page script's `Number(x) || 0` agrees on the digit runs
/// that a time display holds.)
pub open spec fn field_value(s: Seq<char>) -> nat {
    if all_digits(s) {
        decimal_value(s)
    } else {
        0
    }
}

/// `s` cut at every `sep`; there is always at least one field.
pub open spec fn split_fields(s: Seq<char>, sep: char) -> Seq<Seq<char>>
    decreases s.len(),
{
    if s.len() == 0 {
        seq![Seq::empty()]
    } else {
        let prev = split_fields(s.drop_last(), sep);
        if s.last() == sep {
            prev.push(Seq::empty())
        } else {
            prev.update(prev.len() - 1, prev.last().push(s.last()))
        }
    }
}

/// Fields most significant first; the last one counts 1, the one before
/// it 60, the one before that 3600, and so on.
pub open spec fn clock_value(fields: Seq<Seq<char>>) -> nat
    decreases fields.len(),
{
    if fields.len() == 0 {
        0
    } else {
        clock_value(fields.drop_last()) * 60 + field_value(fields.last())
    }
}

/// Seconds denoted by a clock string such as `"1:02:03"`.
pub open spec fn clock_seconds(s: Seq<char>) -> nat {
    clock_value(split_fields(s, ':'))
}

pub(crate) proof fn lemma_split_step(s: Seq<char>, sep: char, i: int)
    requires
        0 <= i < s.len(),
    ensures
        split_fields(s.take(i), sep).len() >= 1,
        split_fields(s.take(i + 1), sep) == (if s[i] == sep {
            split_fields(s.take(i), sep).push(Seq::empty())
        } else {
            let prev = split_fields(s.take(i), sep);
            prev.update(prev.len() - 1, prev.last().push(s[i]))
        }),
{
    lemma_split_nonempty(s.take(i), sep);
    assert(s.take(i + 1).drop_last() == s.take(i));
}

proof fn lemma_split_nonempty(s: Seq<char>, sep: char)
    ensures
        split_fields(s, sep).len() >= 1,
    decreases s.len(),
{
    if s.len() > 0 {
        lemma_split_nonempty(s.drop_last(), sep);
    }
}

proof fn lemma_digits_push(s: Seq<char>, c: char)
    ensures
        all_digits(s.push(c)) == (all_digits(s) && is_digit(c)),
        decimal_value(s.push(c)) == decimal_value(s) * 10 + (c as nat - '0' as nat) as nat,
{
    assert(s.push(c).drop_last() == s);
    if all_digits(s) && is_digit(c) {
        assert forall|i: int| 0 <= i < s.push(c).len() implies is_digit(#[trigger] s.push(c)[i]) by {
            if i < s.len() {
                assert(s.push(c)[i] == s[i]);
            }
        }
    }
    if all_digits(s.push(c)) {
        assert forall|i: int| 0 <= i < s.len() implies is_digit(#[trigger] s[i]) by {
            assert(s.push(c)[i] == s[i]);
        }
        assert(is_digit(s.push(c)[s.len() as int]));
    }
}

/// `clock_seconds(s)` as a `u64`, or `None` where it does not fit in one.
pub open spec fn clock_result(s: Seq<char>) -> Option<u64> {
    if clock_seconds(s) <= u64::MAX {
        Some(clock_seconds(s) as u64)
    } else {
        None
    }
}

/// Seconds denoted by a clock string such as `"1:02:03"` (3723), or `None`
/// where that number does not fit in a `u64`.
pub fn parse_clock_time(s: &str) -> (r: Option<u64>)
    ensures
        r == clock_result(s@),
{
    let cs = chars_of(s);
    assert(cs@.subrange(0, cs@.len() as int) == s@);
    clock_of_chars(&cs, 0, cs.len())
}

fn clock_of_chars(cs: &Vec<char>, from: usize, to: usize) -> (r: Option<u64>)
    requires
        from <= to <= cs.len(),
    ensures
        r == clock_result(cs@.subrange(from as int, to as int)),
{
    let ghost text = cs@.subrange(from as int, to as int);
    // fields already closed by a ':'
    let mut acc: u64 = 0;
    let mut acc_over = false;
    // the field being read
    let mut cur: u64 = 0;
    let mut cur_digits = true;
    let mut cur_over = false;
    let mut i: usize = 0;
    while i < to - from
        invariant
            from <= to <= cs.len(),
            text == cs@.subrange(from as int, to as int),
            0 <= i <= to - from,
            split_fields(text.take(i as int), ':').len() >= 1,
            !acc_over ==> acc == clock_value(split_fields(text.take(i as int), ':').drop_last()),
            acc_over ==> clock_value(split_fields(text.take(i as int), ':').drop_last()) > u64::MAX,
            cur_digits == all_digits(split_fields(text.take(i as int), ':').last()),
            cur_digits && !cur_over ==> cur == decimal_value(
                split_fields(text.take(i as int), ':').last(),
            ),
            cur_digits && cur_over ==> decimal_value(split_fields(text.take(i as int), ':').last())
                > u64::MAX,
        decreases to - from - i,
    {
        let c = cs[from + i];
        let ghost prev = split_fields(text.take(i as int), ':');
        proof {
            lemma_split_step(text, ':', i as int);
        }
        let ghost next = split_fields(text.take(i + 1), ':');
        if c == ':' {
            assert(next.drop_last() == prev);
            assert(next.last() == Seq::<char>::empty());
            assert(clock_value(next.drop_last()) == clock_value(prev.drop_last()) * 60
                + field_value(prev.last()));
            let fv: u64 = if cur_digits {
                cur
            } else {
                0
            };
            if acc_over || (cur_digits && cur_over) {
                acc_over = true;
            } else {
                match acc.checked_mul(60) {
                    Some(m) => match m.checked_add(fv) {
                        Some(a) => {
                            acc = a;
                        },
                        None => {
                            acc_over = true;
                        },
                    },
                    None => {
                        acc_over = true;
                    },
                }
            }
            cur = 0;
            cur_digits = true;
            cur_over = false;
        } else {
            assert(next.drop_last() == prev.drop_last());
            assert(next.last() == prev.last().push(c));
            proof {
                lemma_digits_push(prev.last(), c);
            }
            if cur_digits {
                if '0' <= c && c <= '9' {
                    let d = (c as u32 - '0' as u32) as u64;
                    if !cur_over {
                        match cur.checked_mul(10) {
                            Some(m) => match m.checked_add(d) {
                                Some(v) => {
                                    cur = v;
                                },
                                None => {
                                    cur_over = true;
                                },
                            },
                            None => {
                                cur_over = true;
                            },
                        }
                    }
                } else {
                    cur_digits = false;
                }
            }
        }
        i = i + 1;
    }
    assert(text.take((to - from) as int) == text);
    let ghost fields = split_fields(text, ':');
    assert(fields == fields.drop_last().push(fields.last()));
    assert(clock_seconds(text) == clock_value(fields.drop_last()) * 60 + field_value(
        fields.last(),
    ));
    if acc_over || (cur_digits && cur_over) {
        return None;
    }
    let fv: u64 = if cur_digits {
        cur
    } else {
        0
    };
    match acc.checked_mul(60) {
        Some(m) => m.checked_add(fv),
        None => None,
    }
}

/// Whitespace as the page script's `trim` sees it.
pub open spec fn is_space(c: char) -> bool {
    c == ' ' || c == '\t' || c == '\n' || c == '\r' || c == '\u{b}' || c == '\u{c}' || c
        == '\u{a0}' || c == '\u{1680}' || ('\u{2000}' <= c && c <= '\u{200a}') || c == '\u{2028}'
        || c == '\u{2029}' || c == '\u{202f}' || c == '\u{205f}' || c == '\u{3000}' || c
        == '\u{feff}'
}

fn is_space_char(c: char) -> (r: bool)
    ensures
        r == is_space(c),
{
    c == ' ' || c == '\t' || c == '\n' || c == '\r' || c == '\u{b}' || c == '\u{c}' || c
        == '\u{a0}' || c == '\u{1680}' || ('\u{2000}' <= c && c <= '\u{200a}') || c == '\u{2028}'
        || c == '\u{2029}' || c == '\u{202f}' || c == '\u{205f}' || c == '\u{3000}' || c
        == '\u{feff}'
}

pub open spec fn trim_start(s: Seq<char>) -> Seq<char>
    decreases s.len(),
{
    if s.len() > 0 && is_space(s[0]) {
        trim_start(s.skip(1))
    } else {
        s
    }
}

pub open spec fn trim_end(s: Seq<char>) -> Seq<char>
    decreases s.len(),
{
    if s.len() > 0 && is_space(s.last()) {
        trim_end(s.drop_last())
    } else {
        s
    }
}

/// `s` without leading and trailing whitespace.
pub open spec fn trim(s: Seq<char>) -> Seq<char> {
    trim_end(trim_start(s))
}

/// Bounds of `trim(cs[from..to])` within `cs`.
fn trim_bounds(cs: &Vec<char>, from: usize, to: usize) -> (r: (usize, usize))
    requires
        from <= to <= cs.len(),
    ensures
        from <= r.0 <= r.1 <= to,
        cs@.subrange(r.0 as int, r.1 as int) == trim(cs@.subrange(from as int, to as int)),
{
    let mut lo = from;
    while lo < to && is_space_char(cs[lo])
        invariant
            from <= lo <= to <= cs.len(),
            trim_start(cs@.subrange(from as int, to as int)) == trim_start(
                cs@.subrange(lo as int, to as int),
            ),
        decreases to - lo,
    {
        assert(cs@.subrange(lo as int, to as int).skip(1) == cs@.subrange(lo + 1, to as int));
        lo = lo + 1;
    }
    let mut hi = to;
    while hi > lo && is_space_char(cs[hi - 1])
        invariant
            from <= lo <= hi <= to <= cs.len(),
            trim_end(cs@.subrange(lo as int, to as int)) == trim_end(
                cs@.subrange(lo as int, hi as int),
            ),
            lo < to ==> !is_space(cs@[lo as int]),
        decreases hi - lo,
    {
        assert(cs@.subrange(lo as int, hi as int).drop_last() == cs@.subrange(lo as int, hi - 1));
        hi = hi - 1;
    }
    (lo, hi)
}

/// Elapsed and total seconds of a time display `"elapsed / total"`; a text
/// without a `/` gives zero for both.
pub open spec fn display_times(s: Seq<char>) -> (Option<u64>, Option<u64>) {
    let parts = split_fields(s, '/');
    if parts.len() >= 2 {
        (clock_result(trim(parts[0])), clock_result(trim(parts[1])))
    } else {
        (Some(0u64), Some(0u64))
    }
}

/// Elapsed and total seconds read from the player's time display, as in
/// `"3:05 / 4:00"` (185 and 240); `None` where either side's number does
/// not fit in a `u64`.
pub fn parse_time_display(s: &str) -> (r: Option<(u64, u64)>)
    ensures
        r == (match display_times(s@) {
            (Some(p), Some(d)) => Some((p, d)),
            _ => None::<(u64, u64)>,
        }),
{
    let cs = chars_of(s);
    let ghost text = s@;
    let n = cs.len();
    // separators seen, counted up to 2, and where the first two stand
    let mut seps: usize = 0;
    let mut first: usize = 0;
    let mut second: usize = 0;
    let mut i: usize = 0;
    assert(text.take(0) == Seq::<char>::empty());
    while i < n
        invariant
            cs@ == text,
            n == cs.len(),
            0 <= i <= n,
            seps <= 2,
            seps == 0 ==> split_fields(text.take(i as int), '/') == seq![text.take(i as int)],
            seps >= 1 ==> first < i,
            seps == 1 ==> split_fields(text.take(i as int), '/').len() == 2 && split_fields(
                text.take(i as int),
                '/',
            )[0] == text.take(first as int) && split_fields(text.take(i as int), '/')[1]
                == text.subrange(first + 1, i as int),
            seps == 2 ==> first < second < i && split_fields(text.take(i as int), '/').len() >= 3
                && split_fields(text.take(i as int), '/')[0] == text.take(first as int)
                && split_fields(text.take(i as int), '/')[1] == text.subrange(
                first + 1,
                second as int,
            ),
        decreases n - i,
    {
        let c = cs[i];
        proof {
            lemma_split_step(text, '/', i as int);
        }
        let ghost prev = split_fields(text.take(i as int), '/');
        let ghost next = split_fields(text.take(i + 1), '/');
        if c == '/' {
            if seps == 0 {
                first = i;
                seps = 1;
                assert(next[1] == text.subrange(first + 1, i + 1));
            } else if seps == 1 {
                second = i;
                seps = 2;
            }
        } else {
            if seps == 0 {
                assert(next[0] == text.take(i + 1));
                assert(next == seq![text.take(i + 1)]);
            } else if seps == 1 {
                assert(next[1] == text.subrange(first + 1, i + 1));
            }
        }
        i = i + 1;
    }
    assert(text.take(n as int) == text);
    if seps == 0 {
        return Some((0, 0));
    }
    let end = if seps == 2 {
        second
    } else {
        n
    };
    assert(text.take(first as int) == cs@.subrange(0, first as int));
    assert(text.subrange(first + 1, end as int) == cs@.subrange(first + 1, end as int));
    let (a, b) = trim_bounds(&cs, 0, first);
    let (c, d) = trim_bounds(&cs, first + 1, end);
    let progress = clock_of_chars(&cs, a, b);
    let duration = clock_of_chars(&cs, c, d);
    match (progress, duration) {
        (Some(p), Some(d)) => Some((p, d)),
        _ => None,
    }
}

} // verus!
