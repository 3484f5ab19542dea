//! Decimal rendering of the statistics: a plain `u64` as digits, and a byte
//! count as a human-readable size with two decimal places over 1024-based
//! units.

use vstd::prelude::*;
use vstd::string::StrSliceExecFns;
use vstd::string::StringExecFns;

verus! {

/// The character of one decimal digit.
pub open spec fn spec_digit_char(d: int) -> char {
    ((d + 48) as u8) as char
}

/// The decimal digits of a non-negative number, most significant first;
/// zero is rendered as one digit.
pub open spec fn spec_u64_digits(n: int) -> Seq<char>
    decreases n,
{
    if n < 10 {
        seq![spec_digit_char(n)]
    } else {
        spec_u64_digits(n / 10).push(spec_digit_char(n % 10))
    }
}

/// A one-character string holding the given decimal digit.
fn digit_str(d: u64) -> (s: &'static str)
    requires
        d < 10,
    ensures
        s@ == seq![spec_digit_char(d as int)],
{
    let table = "0123456789";
    proof {
        reveal_strlit("0123456789");
        assert(vstd::string::is_ascii(table)) by {
            assert forall|i: int| 0 <= i < table@.len() implies '\0' <= #[trigger] table@[i]
                <= '\u{7f}' by {
                if i == 0 {
                } else if i == 1 {
                } else if i == 2 {
                } else if i == 3 {
                } else if i == 4 {
                } else if i == 5 {
                } else if i == 6 {
                } else if i == 7 {
                } else if i == 8 {
                } else {
                }
            }
        };
    }
    let s = table.substring_ascii(d as usize, (d + 1) as usize);
    proof {
        let w = d as int;
        assert(s@ =~= seq![table@[w]]);
        if w == 0 {
            assert(table@[w] == spec_digit_char(w));
        } else if w == 1 {
            assert(table@[w] == spec_digit_char(w));
        } else if w == 2 {
            assert(table@[w] == spec_digit_char(w));
        } else if w == 3 {
            assert(table@[w] == spec_digit_char(w));
        } else if w == 4 {
            assert(table@[w] == spec_digit_char(w));
        } else if w == 5 {
            assert(table@[w] == spec_digit_char(w));
        } else if w == 6 {
            assert(table@[w] == spec_digit_char(w));
        } else if w == 7 {
            assert(table@[w] == spec_digit_char(w));
        } else if w == 8 {
            assert(table@[w] == spec_digit_char(w));
        } else {
            assert(table@[w] == spec_digit_char(w));
        }
    }
    s
}

/// The digits already peeled off a number, least significant first, read
/// back as the tail of the rendering.
spec fn spec_peeled_chars(rev: Seq<u64>) -> Seq<char> {
    Seq::new(rev.len(), |i: int| spec_digit_char(rev[rev.len() - 1 - i] as int))
}

/// Renders a number in decimal, exactly as [`spec_u64_digits`] describes.
pub fn u64_to_string(n: u64) -> (s: String)
    ensures
        s@ == spec_u64_digits(n as int),
{
    let mut rev: Vec<u64> = Vec::new();
    let mut m: u64 = n;
    while m >= 10
        invariant
            spec_u64_digits(n as int) == spec_u64_digits(m as int) + spec_peeled_chars(rev@),
            forall|k: int| 0 <= k < rev@.len() ==> #[trigger] rev@[k] < 10,
        decreases m,
    {
        let d = m % 10;
        let ghost rev0 = rev@;
        rev.push(d);
        m = m / 10;
        proof {
            assert(spec_peeled_chars(rev@) =~= seq![spec_digit_char(d as int)]
                + spec_peeled_chars(rev0));
            assert(spec_u64_digits(m as int) + spec_peeled_chars(rev@) =~= (spec_u64_digits(
                m as int,
            ).push(spec_digit_char(d as int))) + spec_peeled_chars(rev0));
        }
    }
    let mut s = String::new();
    s.append(digit_str(m));
    proof {
        assert(s@ =~= seq![spec_digit_char(m as int)]);
        assert(spec_u64_digits(n as int) == seq![spec_digit_char(m as int)] + spec_peeled_chars(
            rev@,
        ));
    }
    let ghost total = spec_u64_digits(n as int);
    proof {
        assert(rev@.take(rev@.len() as int) =~= rev@);
    }
    let mut j: usize = rev.len();
    while j > 0
        invariant
            j <= rev@.len(),
            forall|k: int| 0 <= k < rev@.len() ==> #[trigger] rev@[k] < 10,
            total == spec_u64_digits(n as int),
            total == s@ + spec_peeled_chars(rev@.take(j as int)),
        decreases j,
    {
        j = j - 1;
        let ghost s0 = s@;
        s.append(digit_str(rev[j]));
        proof {
            assert(spec_peeled_chars(rev@.take(j + 1)) =~= seq![
                spec_digit_char(rev@[j as int] as int),
            ] + spec_peeled_chars(rev@.take(j as int)));
            assert(s0 + (seq![spec_digit_char(rev@[j as int] as int)] + spec_peeled_chars(
                rev@.take(j as int),
            )) =~= s@ + spec_peeled_chars(rev@.take(j as int)));
        }
    }
    proof {
        assert(spec_peeled_chars(rev@.take(0)) =~= Seq::<char>::empty());
        assert(s@ + spec_peeled_chars(rev@.take(0)) =~= s@);
    }
    s
}

/// Which 1024-based unit a byte count is shown in: the largest whose
/// threshold the count reaches, stopping at terabytes.
pub open spec fn spec_size_unit(bytes: u64) -> int {
    if bytes < 1024 {
        0
    } else if bytes < 1048576 {
        1
    } else if bytes < 1073741824 {
        2
    } else if bytes < 1099511627776 {
        3
    } else {
        4
    }
}

pub open spec fn spec_unit_divisor(u: int) -> int {
    if u == 0 {
        1
    } else if u == 1 {
        1024
    } else if u == 2 {
        1048576
    } else if u == 3 {
        1073741824
    } else {
        1099511627776
    }
}

pub open spec fn spec_unit_name(u: int) -> Seq<char> {
    if u == 0 {
        "B"@
    } else if u == 1 {
        "KB"@
    } else if u == 2 {
        "MB"@
    } else if u == 3 {
        "GB"@
    } else {
        "TB"@
    }
}

/// The byte count in its unit, in hundredths, rounded half up.
pub open spec fn spec_hundredths(bytes: u64) -> int {
    (200 * bytes + spec_unit_divisor(spec_size_unit(bytes))) / (2 * spec_unit_divisor(
        spec_size_unit(bytes),
    ))
}

/// A byte count shown with two decimal places and its 1024-based unit.
pub open spec fn spec_human_readable(bytes: u64) -> Seq<char> {
    let h = spec_hundredths(bytes);
    spec_u64_digits(h / 100) + "."@ + seq![spec_digit_char((h % 100) / 10)] + seq![
        spec_digit_char(h % 10),
    ] + " "@ + spec_unit_name(spec_size_unit(bytes))
}

/// Renders a byte count as `"1.50 KB"` does: two decimal places, 1024-based
/// units from bytes to terabytes, exactly as [`spec_human_readable`]
/// describes.
pub fn human_readable_size(bytes: u64) -> (s: String)
    ensures
        s@ == spec_human_readable(bytes),
{
    let divisor: u64 = if bytes < 1024 {
        1
    } else if bytes < 1048576 {
        1024
    } else if bytes < 1073741824 {
        1048576
    } else if bytes < 1099511627776 {
        1073741824
    } else {
        1099511627776
    };
    let unit: &str = if bytes < 1024 {
        "B"
    } else if bytes < 1048576 {
        "KB"
    } else if bytes < 1073741824 {
        "MB"
    } else if bytes < 1099511627776 {
        "GB"
    } else {
        "TB"
    };
    let num: u128 = 200u128 * (bytes as u128) + (divisor as u128);
    let den: u128 = 2u128 * (divisor as u128);
    let wide: u128 = num / den;
    proof {
        assert(wide == spec_hundredths(bytes));
        let n_ = num as int;
        let d_ = den as int;
        let q = n_ / d_;
        vstd::arithmetic::div_mod::lemma_fundamental_div_mod(n_, d_);
        vstd::arithmetic::div_mod::lemma_mod_bound(n_, d_);
        if bytes < 1099511627776 {
            assert(n_ < 102401 * d_);
            assert(q < 102401) by (nonlinear_arith)
                requires
                    d_ * q + (n_ % d_) == n_,
                    0 <= n_ % d_,
                    n_ < 102401 * d_,
                    d_ > 0,
            ;
        } else {
            assert(n_ < 0x80000000 * d_);
            assert(q < 0x80000000) by (nonlinear_arith)
                requires
                    d_ * q + (n_ % d_) == n_,
                    0 <= n_ % d_,
                    n_ < 0x80000000 * d_,
                    d_ > 0,
            ;
        }
        assert(wide <= u64::MAX);
    }
    let h: u64 = wide as u64;
    let whole = u64_to_string(h / 100);
    let s = whole.concat(".").concat(digit_str((h % 100) / 10)).concat(digit_str(h % 10)).concat(
        " ",
    ).concat(unit);
    s
}

} // verus!

