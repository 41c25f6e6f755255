//! Duration texts in moderation commands: `1w2d`, `30m`, `1h30m15s`.
//!
//! Each unit letter (`w`, `d`, `h`, `m`, `s`) multiplies the run of digits
//! before it; the products are summed. Digits after the last unit are ignored.

use vstd::prelude::*;
use crate::utils::text::chars_of;

verus! {

/// What `char::is_numeric` says of a character outside ASCII: whether its
/// Unicode general category is one of the number categories (Nd, Nl, No).
pub uninterp spec fn unicode_numeric(c: char) -> bool;

/// `char::is_numeric`: the ASCII digits among ASCII characters, and the Unicode
/// number categories beyond ASCII.
pub open spec fn is_numeric_char(c: char) -> bool {
    if (c as u32) < 128 {
        0x30 <= (c as u32) <= 0x39
    } else {
        unicode_numeric(c)
    }
}

/// Calls `char::is_numeric`. Its contract claims what the standard library's
/// definition is: `'0'..='9'` among ASCII characters, and membership in the
/// Unicode number categories beyond ASCII (left as the name `unicode_numeric`).
#[verifier::external_body]
fn char_is_numeric(c: char) -> (res: bool)
    ensures
        res == (if (c as u32) < 128 {
            0x30 <= (c as u32) <= 0x39
        } else {
            unicode_numeric(c)
        }),
{
    c.is_numeric()
}

pub open spec fn is_ascii_digit(c: char) -> bool {
    0x30 <= (c as u32) <= 0x39
}

pub open spec fn all_ascii_digits(s: Seq<char>) -> bool {
    forall|i: int| 0 <= i < s.len() ==> #[trigger] is_ascii_digit(s[i])
}

/// The number that a string of ASCII digits writes in base ten.
pub open spec fn decimal_value(s: Seq<char>) -> nat
    decreases s.len(),
{
    if s.len() == 0 {
        0
    } else {
        decimal_value(s.drop_last()) * 10 + ((s.last() as u32) - 0x30) as nat
    }
}

/// What `str::parse::<u64>` gives for a run of numeric characters: a non-empty
/// run of ASCII digits whose value fits in a `u64`.
pub open spec fn parse_run(run: Seq<char>) -> Option<nat> {
    if run.len() > 0 && all_ascii_digits(run) && decimal_value(run) <= u64::MAX {
        Some(decimal_value(run))
    } else {
        None
    }
}

/// Seconds in one of each unit letter.
pub open spec fn unit_seconds(c: char) -> Option<nat> {
    if c == 'w' {
        Some(604800)
    } else if c == 'd' {
        Some(86400)
    } else if c == 'h' {
        Some(3600)
    } else if c == 'm' {
        Some(60)
    } else if c == 's' {
        Some(1)
    } else {
        None
    }
}

/// Reading `s` left to right: the seconds summed so far and the run of numeric
/// characters not yet closed by a unit; `None` where a character is neither
/// numeric nor a unit, where a unit closes a run that is not a `u64`, or where
/// the sum leaves the `u64` range.
pub open spec fn scan_time(s: Seq<char>) -> Option<(nat, Seq<char>)>
    decreases s.len(),
{
    if s.len() == 0 {
        Some((0nat, Seq::<char>::empty()))
    } else {
        match scan_time(s.drop_last()) {
            None => None,
            Some((total, run)) => {
                let c = s.last();
                if is_numeric_char(c) {
                    Some((total, run.push(c)))
                } else {
                    match (unit_seconds(c), parse_run(run)) {
                        (Some(m), Some(v)) => if v * m <= u64::MAX && total + v * m <= u64::MAX {
                            Some(((total + v * m) as nat, Seq::<char>::empty()))
                        } else {
                            None
                        },
                        _ => None,
                    }
                }
            },
        }
    }
}

/// The duration in seconds that `s` writes, or `None` where reading it fails.
pub open spec fn time_length(s: Seq<char>) -> Option<u64> {
    match scan_time(s) {
        Some((total, _)) => Some(total as u64),
        None => None,
    }
}

/// Once reading fails on a prefix, it fails on the whole text.
proof fn lemma_scan_none_extends(s: Seq<char>, k: int)
    requires
        0 <= k <= s.len(),
        scan_time(s.take(k)) is None,
    ensures
        scan_time(s) is None,
    decreases s.len() - k,
{
    if k == s.len() {
        assert(s.take(k) =~= s);
    } else {
        assert(s.drop_last().take(k) =~= s.take(k));
        lemma_scan_none_extends(s.drop_last(), k);
    }
}

/// The duration in seconds that `time` writes, or `None` where it is not a
/// duration text.
pub fn checked_time_length(time: &str) -> (res: Option<u64>)
    ensures
        res == time_length(time@),
{
    let s = chars_of(time);
    let mut total: u64 = 0;
    let mut run_value: u64 = 0;
    let mut run_ok: bool = true;
    let mut run_len: usize = 0;
    let ghost mut run: Seq<char> = Seq::empty();
    let mut i: usize = 0;
    while i < s.len()
        invariant
            0 <= i <= s.len(),
            s@ == time@,
            scan_time(s@.take(i as int)) == Some((total as nat, run)),
            run_len == run.len(),
            run_len <= i,
            run_ok ==> all_ascii_digits(run) && run_value == decimal_value(run),
            !run_ok ==> !(all_ascii_digits(run) && decimal_value(run) <= u64::MAX),
        decreases s.len() - i,
    {
        let c = s[i];
        assert(s@.take(i + 1).drop_last() =~= s@.take(i as int));
        assert(s@.take(i + 1).last() == c);
        if char_is_numeric(c) {
            let ghost new_run = run.push(c);
            assert(new_run.drop_last() =~= run);
            let code = c as u32;
            if run_ok && 48 <= code && code <= 57 {
                let d = (code - 48) as u64;
                match run_value.checked_mul(10) {
                    Some(t) => match t.checked_add(d) {
                        Some(v) => {
                            run_value = v;
                        },
                        None => {
                            run_ok = false;
                        },
                    },
                    None => {
                        run_ok = false;
                    },
                }
                if run_ok {
                    assert forall|j: int| 0 <= j < new_run.len() implies #[trigger] is_ascii_digit(
                        new_run[j],
                    ) by {
                        if j < run.len() {
                            assert(is_ascii_digit(run[j]));
                        }
                    }
                }
            } else {
                if run_ok {
                    assert(!is_ascii_digit(new_run[new_run.len() - 1]));
                    run_ok = false;
                } else {
                    proof {
                        if all_ascii_digits(new_run) {
                            assert forall|j: int| 0 <= j < run.len() implies #[trigger] is_ascii_digit(
                                run[j],
                            ) by {
                                assert(is_ascii_digit(new_run[j]));
                            }
                        }
                    }
                }
            }
            proof {
                run = new_run;
            }
            run_len = run_len + 1;
        } else {
            let mult: u64 = if c == 'w' {
                604800
            } else if c == 'd' {
                86400
            } else if c == 'h' {
                3600
            } else if c == 'm' {
                60
            } else if c == 's' {
                1
            } else {
                proof {
                    lemma_scan_none_extends(s@, i + 1);
                }
                return None;
            };
            if !run_ok || run_len == 0 {
                proof {
                    lemma_scan_none_extends(s@, i + 1);
                }
                return None;
            }
            match run_value.checked_mul(mult) {
                Some(p) => match total.checked_add(p) {
                    Some(t) => {
                        total = t;
                    },
                    None => {
                        proof {
                            lemma_scan_none_extends(s@, i + 1);
                        }
                        return None;
                    },
                },
                None => {
                    proof {
                        lemma_scan_none_extends(s@, i + 1);
                    }
                    return None;
                },
            }
            proof {
                run = Seq::empty();
            }
            run_value = 0;
            run_ok = true;
            run_len = 0;
        }
        i = i + 1;
    }
    assert(s@.take(s.len() as int) =~= s@);
    Some(total)
}

/// The duration in seconds that `time` writes.
pub fn convert_text_to_time_length(time: &str) -> (res: u64)
    requires
        time_length(time@) is Some,
    ensures
        time_length(time@) == Some(res),
{
    checked_time_length(time).unwrap()
}

} // verus!

verus! {

/// Reading on from a prefix that ended with a unit: the seconds of the rest
/// are added to the seconds of the prefix.
proof fn lemma_scan_time_append(a: Seq<char>, b: Seq<char>, ta: nat)
    requires
        scan_time(a) == Some((ta, Seq::<char>::empty())),
    ensures
        match scan_time(b) {
            Some((tb, rb)) => ta + tb <= u64::MAX ==> scan_time(a + b) == Some(
                ((ta + tb) as nat, rb),
            ),
            None => true,
        },
    decreases b.len(),
{
    if b.len() == 0 {
        assert(a + b =~= a);
    } else {
        let b0 = b.drop_last();
        lemma_scan_time_append(a, b0, ta);
        assert((a + b).drop_last() =~= a + b0);
        assert((a + b).last() == b.last());
    }
}

/// The seconds summed while reading stay in the `u64` range.
proof fn lemma_scan_time_bounded(s: Seq<char>)
    ensures
        match scan_time(s) {
            Some((total, _)) => total <= u64::MAX,
            None => true,
        },
    decreases s.len(),
{
    if s.len() > 0 {
        lemma_scan_time_bounded(s.drop_last());
    }
}

/// Reading `a` succeeds and leaves no run of numeric characters open.
pub open spec fn closed_by_unit(a: Seq<char>) -> bool {
    match scan_time(a) {
        Some((_, run)) => run.len() == 0,
        None => false,
    }
}

/// A duration text made of two duration texts, the first ending with a unit
/// (or empty), is as long as the two together.
pub proof fn lemma_time_length_concat(a: Seq<char>, b: Seq<char>)
    requires
        closed_by_unit(a),
        time_length(b) is Some,
        time_length(a)->0 + time_length(b)->0 <= u64::MAX,
    ensures
        time_length(a + b) == Some((time_length(a)->0 + time_length(b)->0) as u64),
{
    let (ta, run) = scan_time(a)->0;
    assert(run =~= Seq::<char>::empty());
    lemma_scan_time_bounded(a);
    lemma_scan_time_bounded(b);
    lemma_scan_time_append(a, b, ta);
}

/// Numeric characters after the last unit do not change the duration.
pub proof fn lemma_time_length_trailing_digits(a: Seq<char>, d: Seq<char>)
    requires
        forall|i: int| 0 <= i < d.len() ==> is_numeric_char(#[trigger] d[i]),
    ensures
        time_length(a + d) == time_length(a),
    decreases d.len(),
{
    if d.len() == 0 {
        assert(a + d =~= a);
    } else {
        let d0 = d.drop_last();
        assert forall|i: int| 0 <= i < d0.len() implies is_numeric_char(#[trigger] d0[i]) by {
            assert(d0[i] == d[i]);
        }
        lemma_time_length_trailing_digits(a, d0);
        lemma_scan_time_trailing(a, d0, d.last());
        assert((a + d).drop_last() =~= a + d0);
        assert((a + d).last() == d.last());
    }
}

proof fn lemma_scan_time_trailing(a: Seq<char>, d0: Seq<char>, c: char)
    requires
        is_numeric_char(c),
    ensures
        ({
            let s = (a + d0).push(c);
            match scan_time(a + d0) {
                Some((t, r)) => scan_time(s) == Some((t, r.push(c))),
                None => scan_time(s) is None,
            }
        }),
{
    let s = (a + d0).push(c);
    assert(s.drop_last() =~= a + d0);
}

} // verus!

verus! {

/// What `str::parse::<u64>` gives: an optional `+`, then one or more ASCII
/// digits whose value fits in a `u64`.
pub open spec fn parse_u64(s: Seq<char>) -> Option<u64> {
    let digits = if s.len() > 0 && s[0] == '+' {
        s.drop_first()
    } else {
        s
    };
    if digits.len() > 0 && all_ascii_digits(digits) && decimal_value(digits) <= u64::MAX {
        Some(decimal_value(digits) as u64)
    } else {
        None
    }
}

/// Reads a decimal number, as `str::parse::<u64>` does.
pub fn parse_u64_text(text: &str) -> (res: Option<u64>)
    ensures
        res == parse_u64(text@),
{
    let s = chars_of(text);
    let start: usize = if s.len() > 0 && s[0] == '+' {
        1
    } else {
        0
    };
    let ghost digits = if s@.len() > 0 && s@[0] == '+' {
        s@.drop_first()
    } else {
        s@
    };
    assert(digits =~= s@.skip(start as int));
    if start >= s.len() {
        return None;
    }
    let mut value: u64 = 0;
    let mut fits: bool = true;
    let mut i: usize = start;
    assert(s@.subrange(start as int, start as int) =~= Seq::<char>::empty());
    while i < s.len()
        invariant
            start <= i <= s@.len(),
            s@ == text@,
            digits == s@.skip(start as int),
            digits == (if s@.len() > 0 && s@[0] == '+' {
                s@.drop_first()
            } else {
                s@
            }),
            all_ascii_digits(s@.subrange(start as int, i as int)),
            fits ==> value == decimal_value(s@.subrange(start as int, i as int)),
            !fits ==> decimal_value(s@.subrange(start as int, i as int)) > u64::MAX,
        decreases s.len() - i,
    {
        let c = s[i];
        let code = #[verifier::truncate] (c as u32);
        let ghost prefix = s@.subrange(start as int, i as int);
        let ghost next = s@.subrange(start as int, i + 1);
        assert(next.drop_last() =~= prefix);
        assert(next.last() == c);
        if code < 48 || code > 57 {
            assert(digits[i - start] == s@[i as int]);
            assert(!is_ascii_digit(digits[i - start]));
            return None;
        }
        assert forall|j: int| 0 <= j < next.len() implies #[trigger] is_ascii_digit(next[j]) by {
            if j < prefix.len() {
                assert(next[j] == prefix[j]);
            }
        }
        if fits {
            match value.checked_mul(10) {
                Some(t) => match t.checked_add((code - 48) as u64) {
                    Some(v) => {
                        value = v;
                    },
                    None => {
                        fits = false;
                    },
                },
                None => {
                    fits = false;
                },
            }
        }
        i = i + 1;
    }
    assert(s@.subrange(start as int, s@.len() as int) =~= digits);
    if fits {
        Some(value)
    } else {
        None
    }
}

} // verus!

verus! {

proof fn lemma_scan_digits(digits: Seq<char>)
    requires
        all_ascii_digits(digits),
    ensures
        scan_time(digits) == Some((0nat, digits)),
    decreases digits.len(),
{
    if digits.len() > 0 {
        let d0 = digits.drop_last();
        assert forall|i: int| 0 <= i < d0.len() implies #[trigger] is_ascii_digit(d0[i]) by {
            assert(d0[i] == digits[i]);
        }
        lemma_scan_digits(d0);
        assert(is_ascii_digit(digits[digits.len() - 1]));
        assert(d0.push(digits.last()) =~= digits);
    }
}

/// A number followed by one unit letter lasts that many weeks (604800
/// seconds each), days (86400), hours (3600), minutes (60) or seconds (1),
/// where that fits in a `u64`, and cannot be read where it does not.
pub proof fn lemma_time_length_one_unit(digits: Seq<char>)
    requires
        digits.len() > 0,
        all_ascii_digits(digits),
        decimal_value(digits) <= u64::MAX,
    ensures
        ({
            let n = decimal_value(digits);
            &&& time_length(digits.push('w')) == (if n * 604800 <= u64::MAX {
                Some((n * 604800) as u64)
            } else {
                None
            })
            &&& time_length(digits.push('d')) == (if n * 86400 <= u64::MAX {
                Some((n * 86400) as u64)
            } else {
                None
            })
            &&& time_length(digits.push('h')) == (if n * 3600 <= u64::MAX {
                Some((n * 3600) as u64)
            } else {
                None
            })
            &&& time_length(digits.push('m')) == (if n * 60 <= u64::MAX {
                Some((n * 60) as u64)
            } else {
                None
            })
            &&& time_length(digits.push('s')) == Some(n as u64)
        }),
{
    lemma_scan_digits(digits);
    assert(digits.push('w').drop_last() =~= digits);
    assert(digits.push('d').drop_last() =~= digits);
    assert(digits.push('h').drop_last() =~= digits);
    assert(digits.push('m').drop_last() =~= digits);
    assert(digits.push('s').drop_last() =~= digits);
}

} // verus!
