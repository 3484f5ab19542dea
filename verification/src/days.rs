//! The time predicate: a day-count rule parsed from a string such as
//! `"+30"`, `"-15"` or `"0"`, and its evaluation against a file age.

use vstd::prelude::*;
use vstd::string::StrSliceExecFns;
use vstd::string::StringExecFns;

verus! {

/// The age rule taken from the configured day-count string: an exact age in
/// days, a strict minimum age (`+n`, older than `n` days), or a strict
/// maximum age (`-n`, newer than `n` days).
#[derive(Clone, Copy, Debug, PartialEq, Eq, Structural)]
pub enum TimeComparison {
    Exact(u64),
    MoreThan(u64),
    LessThan(u64),
}

/// Whether a file whose age is `age_days` whole days satisfies the rule.
pub open spec fn spec_age_matches(c: TimeComparison, age_days: u64) -> bool {
    match c {
        TimeComparison::Exact(n) => age_days == n,
        TimeComparison::MoreThan(n) => age_days > n,
        TimeComparison::LessThan(n) => age_days < n,
    }
}

pub fn age_matches(c: &TimeComparison, age_days: u64) -> (r: bool)
    ensures
        r == spec_age_matches(*c, age_days),
{
    match c {
        TimeComparison::Exact(n) => age_days == *n,
        TimeComparison::MoreThan(n) => age_days > *n,
        TimeComparison::LessThan(n) => age_days < *n,
    }
}

/// A file's age in whole days, given the current time and its modification
/// time as seconds since the epoch; a future-dated file has age zero.
pub open spec fn spec_age_days(now_secs: u64, modified_secs: u64) -> u64 {
    if modified_secs > now_secs {
        0u64
    } else {
        (((now_secs - modified_secs) as u64) / 86400u64) as u64
    }
}

pub fn age_days_from_secs(now_secs: u64, modified_secs: u64) -> (r: u64)
    ensures
        r == spec_age_days(now_secs, modified_secs),
{
    if modified_secs > now_secs {
        0
    } else {
        (now_secs - modified_secs) / 86400
    }
}

/// An ASCII decimal digit.
pub open spec fn is_digit_char(c: char) -> bool {
    48 <= c as int <= 57
}

pub open spec fn digit_val(c: char) -> int {
    c as int - 48
}

/// The value of a string of decimal digits, most significant first.
pub open spec fn digits_val(s: Seq<char>) -> int
    decreases s.len(),
{
    if s.len() == 0 {
        0
    } else {
        digits_val(s.drop_last()) * 10 + digit_val(s.last())
    }
}

/// A well-formed day count: at least one digit, digits only, and a value
/// that fits in a `u64`.
pub open spec fn is_day_count(s: Seq<char>) -> bool {
    &&& s.len() > 0
    &&& (forall|i: int| 0 <= i < s.len() ==> is_digit_char(s[i]))
    &&& digits_val(s) <= u64::MAX
}

/// What the day-count string means: a leading `+` selects `MoreThan`, a
/// leading `-` selects `LessThan`, anything else `Exact`; the remainder must
/// be a well-formed day count, or the string is rejected.
pub open spec fn spec_parse_days(s: Seq<char>) -> Option<TimeComparison> {
    if s.len() > 0 && s[0] == '+' {
        if is_day_count(s.drop_first()) {
            Some(TimeComparison::MoreThan(digits_val(s.drop_first()) as u64))
        } else {
            None
        }
    } else if s.len() > 0 && s[0] == '-' {
        if is_day_count(s.drop_first()) {
            Some(TimeComparison::LessThan(digits_val(s.drop_first()) as u64))
        } else {
            None
        }
    } else {
        if is_day_count(s) {
            Some(TimeComparison::Exact(digits_val(s) as u64))
        } else {
            None
        }
    }
}

/// The rejection message for an unparsable day-count string.
pub open spec fn spec_invalid_days_msg(s: Seq<char>) -> Seq<char> {
    "Invalid days input: '"@ + s + "'"@
}

proof fn lemma_digits_val_bounds(s: Seq<char>)
    requires
        forall|i: int| 0 <= i < s.len() ==> is_digit_char(s[i]),
    ensures
        0 <= digits_val(s),
        s.len() > 0 ==> digits_val(s) >= digits_val(s.drop_last()),
    decreases s.len(),
{
    if s.len() > 0 {
        lemma_digits_val_bounds(s.drop_last());
    }
}

/// The value of a digit string never falls when more digits follow.
proof fn lemma_digits_val_prefix(s: Seq<char>, n: int)
    requires
        forall|i: int| 0 <= i < s.len() ==> is_digit_char(s[i]),
        0 <= n <= s.len(),
    ensures
        digits_val(s.take(n)) <= digits_val(s),
    decreases s.len() - n,
{
    if n < s.len() {
        lemma_digits_val_prefix(s, n + 1);
        let t = s.take(n + 1);
        assert(t.drop_last() =~= s.take(n));
        assert(t.last() == s[n]);
        lemma_digits_val_bounds(s.take(n));
        assert(digits_val(s.take(n)) * 10 >= digits_val(s.take(n)));
    } else {
        assert(s.take(n) =~= s);
    }
}

/// Reads the digits of `s` from position `start` on; `None` when a
/// non-digit occurs, no digit occurs, or the value does not fit in a `u64`.
fn parse_day_count(s: &str, start: usize, n: usize) -> (r: Option<u64>)
    requires
        n == s@.len(),
        start <= n,
    ensures
        match r {
            Some(v) => is_day_count(s@.skip(start as int)) && v == digits_val(
                s@.skip(start as int),
            ),
            None => !is_day_count(s@.skip(start as int)),
        },
{
    let ghost whole = s@.skip(start as int);
    if start == n {
        return None;
    }
    let mut acc: u64 = 0;
    let mut i: usize = start;
    while i < n
        invariant
            start <= i <= n,
            n == s@.len(),
            whole == s@.skip(start as int),
            forall|k: int| start <= k < i ==> is_digit_char(s@[k]),
            acc == digits_val(s@.subrange(start as int, i as int)),
        decreases n - i,
    {
        let c = s.get_char(i);
        let code = c as u32;
        if code < 48 || code > 57 {
            assert(!is_digit_char(whole[i - start]));
            return None;
        }
        let d = (code - 48) as u64;
        let ghost prefix = s@.subrange(start as int, i as int);
        let ghost prefix1 = s@.subrange(start as int, i + 1 as int);
        proof {
            assert(prefix1.drop_last() =~= prefix);
            assert(prefix1.last() == s@[i as int]);
            assert(forall|k: int| 0 <= k < prefix1.len() ==> is_digit_char(prefix1[k]));
        }
        if acc > (u64::MAX - d) / 10 {
            proof {
                let m = u64::MAX as int;
                assert(acc * 10 + d > m) by {
                    let q = (m - d) / 10;
                    assert(m - d == 10 * q + (m - d) % 10) by {
                        vstd::arithmetic::div_mod::lemma_fundamental_div_mod(m - d, 10);
                    };
                    assert((m - d) % 10 < 10) by {
                        vstd::arithmetic::div_mod::lemma_mod_bound(m - d, 10);
                    };
                    assert(acc >= q + 1);
                    assert(acc * 10 >= (q + 1) * 10) by (nonlinear_arith)
                        requires acc >= q + 1;
                };
                assert(digits_val(prefix1) > m);
                if forall|k: int| 0 <= k < whole.len() ==> is_digit_char(whole[k]) {
                    lemma_digits_val_prefix(whole, i + 1 - start);
                    assert(whole.take(i + 1 - start) =~= prefix1);
                    assert(digits_val(whole) > m);
                }
                assert(!is_day_count(whole));
            }
            return None;
        }
        proof {
            let m = u64::MAX as int;
            let q = (m - d) / 10;
            assert(10 * q <= m - d) by {
                vstd::arithmetic::div_mod::lemma_fundamental_div_mod(m - d, 10);
                vstd::arithmetic::div_mod::lemma_mod_bound(m - d, 10);
            };
            assert(acc <= q);
            assert(acc * 10 <= q * 10) by (nonlinear_arith)
                requires acc <= q;
            assert(acc * 10 + d <= m);
        }
        acc = acc * 10 + d;
        i = i + 1;
    }
    proof {
        assert(s@.subrange(start as int, n as int) =~= whole);
    }
    Some(acc)
}

/// Parses the configured day-count string into the age rule, exactly as
/// [`spec_parse_days`] describes; a rejected string yields the message of
/// [`spec_invalid_days_msg`].
pub fn parse_time_comparison(input: &str) -> (r: Result<TimeComparison, String>)
    ensures
        match spec_parse_days(input@) {
            Some(c) => r is Ok && r->Ok_0 == c,
            None => r is Err && r->Err_0@ == spec_invalid_days_msg(input@),
        },
{
    let n = input.unicode_len();
    let parsed: Option<TimeComparison> = if n > 0 && input.get_char(0) == '+' {
        match parse_day_count(input, 1, n) {
            Some(v) => Some(TimeComparison::MoreThan(v)),
            None => None,
        }
    } else if n > 0 && input.get_char(0) == '-' {
        match parse_day_count(input, 1, n) {
            Some(v) => Some(TimeComparison::LessThan(v)),
            None => None,
        }
    } else {
        match parse_day_count(input, 0, n) {
            Some(v) => Some(TimeComparison::Exact(v)),
            None => None,
        }
    };
    proof {
        if n > 0 {
            assert(input@.skip(1) =~= input@.drop_first());
        }
        assert(input@.skip(0) =~= input@);
    }
    match parsed {
        Some(c) => Ok(c),
        None => {
            let msg = String::from_str("Invalid days input: '").concat(input).concat("'");
            Err(msg)
        },
    }
}

} // verus!
