//! Byte counts scaled to the units B, K, M, G, T and P.

use crate::text::{append_decimal, decimal_text, digit_char};
use vstd::prelude::*;
use vstd::string::StringExecFns;

verus! {

/// How many bytes one of the unit numbered `unit` holds: 1024 to the power
/// `unit`, for the units 0 (B) to 5 (P).
pub open spec fn unit_scale(unit: nat) -> nat {
    if unit == 0 {
        1
    } else if unit == 1 {
        1024
    } else if unit == 2 {
        1_048_576
    } else if unit == 3 {
        1_073_741_824
    } else if unit == 4 {
        1_099_511_627_776
    } else {
        1_125_899_906_842_624
    }
}

/// The unit in which a byte count is shown: the largest of the six units of
/// which the count holds at least one, and bytes for counts below 1024.
pub open spec fn size_unit(bytes: nat) -> nat {
    if bytes < unit_scale(1) {
        0
    } else if bytes < unit_scale(2) {
        1
    } else if bytes < unit_scale(3) {
        2
    } else if bytes < unit_scale(4) {
        3
    } else if bytes < unit_scale(5) {
        4
    } else {
        5
    }
}

/// The letter that names a unit.
pub open spec fn unit_letter(unit: nat) -> char {
    if unit == 0 {
        'B'
    } else if unit == 1 {
        'K'
    } else if unit == 2 {
        'M'
    } else if unit == 3 {
        'G'
    } else if unit == 4 {
        'T'
    } else {
        'P'
    }
}

/// The whole number nearest to `n / d`; where two are equally near, the even
/// one.
pub open spec fn nearest_quotient(n: nat, d: nat) -> nat {
    let q = n / d;
    let r = n % d;
    if 2 * r < d || (2 * r == d && q % 2 == 0) {
        q
    } else {
        q + 1
    }
}

/// A byte count in human-readable form: the count divided by the scale of its
/// unit, followed by the unit's letter. A count in bytes, and a scaled value of
/// ten or more, is rounded to a whole number; a smaller scaled value is rounded
/// to tenths, and the tenths are shown as one decimal place unless they are
/// zero.
pub open spec fn size_text(bytes: nat) -> Seq<char> {
    let unit = size_unit(bytes);
    let scale = unit_scale(unit);
    if unit == 0 || bytes >= 10 * scale {
        decimal_text(nearest_quotient(bytes, scale)).push(unit_letter(unit))
    } else {
        let tenths = nearest_quotient(10 * bytes, scale);
        if tenths % 10 == 0 {
            decimal_text(tenths / 10).push(unit_letter(unit))
        } else {
            decimal_text(tenths / 10).push('.').push(digit_char(tenths % 10)).push(
                unit_letter(unit),
            )
        }
    }
}

/// A larger byte count is never shown in a smaller unit.
pub proof fn lemma_size_unit_monotonic(a: u64, b: u64)
    requires
        a <= b,
    ensures
        size_unit(a as nat) <= size_unit(b as nat),
        size_text(a as nat).last() == unit_letter(size_unit(a as nat)),
        size_text(b as nat).last() == unit_letter(size_unit(b as nat)),
{
}

/// Zero bytes are shown as `0B`.
pub proof fn lemma_size_text_zero()
    ensures
        size_text(0) == seq!['0', 'B'],
{
    assert(0nat / 1 == 0 && 0nat % 1 == 0);
    assert(size_text(0) =~= seq!['0', 'B']);
}

fn unit_str(unit: u8) -> (s: &'static str)
    requires
        unit <= 5,
    ensures
        s@ == seq![unit_letter(unit as nat)],
{
    proof {
        reveal_strlit("B");
        reveal_strlit("K");
        reveal_strlit("M");
        reveal_strlit("G");
        reveal_strlit("T");
        reveal_strlit("P");
    }
    let s = if unit == 0 {
        "B"
    } else if unit == 1 {
        "K"
    } else if unit == 2 {
        "M"
    } else if unit == 3 {
        "G"
    } else if unit == 4 {
        "T"
    } else {
        "P"
    };
    assert(s@ =~= seq![unit_letter(unit as nat)]);
    s
}

fn nearest(n: u64, d: u64) -> (q: u64)
    requires
        0 < d <= 1_125_899_906_842_624,
    ensures
        q == nearest_quotient(n as nat, d as nat),
{
    let q: u64 = n / d;
    let r: u64 = n % d;
    assert(r < d) by (nonlinear_arith)
        requires
            r == n % d,
            d > 0,
    ;
    assert(q < u64::MAX || d == 1) by (nonlinear_arith)
        requires
            q == n / d,
            d > 0,
            n <= u64::MAX,
    ;
    if 2 * r < d || (2 * r == d && q % 2 == 0) {
        q
    } else {
        q + 1
    }
}

/// The human-readable form of a byte count.
pub fn human_readable_size(bytes: u64) -> (s: String)
    ensures
        s@ == size_text(bytes as nat),
{
    let unit: u8 = if bytes < 1024 {
        0
    } else if bytes < 1_048_576 {
        1
    } else if bytes < 1_073_741_824 {
        2
    } else if bytes < 1_099_511_627_776 {
        3
    } else if bytes < 1_125_899_906_842_624 {
        4
    } else {
        5
    };
    let scale: u64 = if unit == 0 {
        1
    } else if unit == 1 {
        1024
    } else if unit == 2 {
        1_048_576
    } else if unit == 3 {
        1_073_741_824
    } else if unit == 4 {
        1_099_511_627_776
    } else {
        1_125_899_906_842_624
    };
    let mut s = String::new();
    if unit == 0 || bytes >= 10 * scale {
        append_decimal(&mut s, nearest(bytes, scale));
    } else {
        let tenths: u64 = nearest(10 * bytes, scale);
        append_decimal(&mut s, tenths / 10);
        if tenths % 10 != 0 {
            proof {
                reveal_strlit(".");
            }
            s.append(".");
            append_decimal(&mut s, tenths % 10);
        }
    }
    s.append(unit_str(unit));
    assert(s@ =~= size_text(bytes as nat));
    s
}

} // verus!
