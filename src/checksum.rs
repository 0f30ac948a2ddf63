//! The EAN-13 check digit.

use vstd::prelude::*;

verus! {

/// Weight of the digit at position `i`: 1 at even positions, 3 at odd ones.
pub open spec fn weight(i: int) -> int {
    if i % 2 == 0 {
        1
    } else {
        3
    }
}

/// Sum of the digits of `d`, each times the weight of its position.
pub open spec fn weighted_sum(d: Seq<u8>) -> int
    decreases d.len(),
{
    if d.len() == 0 {
        0
    } else {
        weighted_sum(d.drop_last()) + weight(d.len() - 1) * d.last()
    }
}

/// The EAN-13 check digit of `d`: what brings the weighted sum up to a
/// multiple of ten.
pub open spec fn check_digit(d: Seq<u8>) -> int {
    let s = weighted_sum(d);
    if s % 10 == 0 {
        0
    } else {
        10 - s % 10
    }
}

/// Computes the EAN-13 check digit of twelve digits.
pub fn ean13_check(digits: &[u8; 12]) -> (r: u8)
    ensures
        r == check_digit(digits@),
        r < 10,
{
    let mut s: u16 = 0;
    let mut i: usize = 0;
    while i < 12
        invariant
            i <= 12,
            digits@.len() == 12,
            s == weighted_sum(digits@.take(i as int)),
            s <= 765 * i,
        decreases 12 - i,
    {
        let p: u16 = if i % 2 == 0 {
            1
        } else {
            3
        };
        assert(digits@.take(i + 1).drop_last() =~= digits@.take(i as int));
        s = s + digits[i] as u16 * p;
        i = i + 1;
    }
    assert(digits@.take(12) =~= digits@);
    if s % 10 == 0 {
        0
    } else {
        (10 - s % 10) as u8
    }
}

} // verus!
