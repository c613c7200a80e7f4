//! Progress of a transfer as an exact fraction of the expected payload.

use vstd::prelude::*;

verus! {

/// A fraction between zero and one, kept as a pair of byte counts.
///
/// The denominator is never zero and the numerator never exceeds it, so the
/// value `numerator / denominator` always lies in `[0, 1]`.
#[derive(Clone, Copy, Debug, PartialEq, Eq)]
pub struct Fraction {
    numerator: u64,
    denominator: u64,
}

impl Fraction {
    /// The numerator, as a mathematical integer.
    pub closed spec fn num(self) -> int {
        self.numerator as int
    }

    /// The denominator, as a mathematical integer.
    pub closed spec fn den(self) -> int {
        self.denominator as int
    }

    /// The value lies in `[0, 1]`: the denominator is positive and bounds the
    /// numerator.
    pub open spec fn in_unit_interval(self) -> bool {
        0 <= self.num() <= self.den() && 0 < self.den()
    }

    /// `self <= other` as rationals, by cross multiplication.
    pub open spec fn le(self, other: Fraction) -> bool {
        self.num() * other.den() <= other.num() * self.den()
    }

    /// The fraction equals zero.
    pub open spec fn is_zero(self) -> bool {
        self.num() == 0
    }

    /// The fraction equals one.
    pub open spec fn is_one(self) -> bool {
        self.num() == self.den()
    }

    #[verifier::type_invariant]
    spec fn valid(self) -> bool {
        self.numerator <= self.denominator && 0 < self.denominator
    }

    /// The fraction `0 / 1`: nothing received, or no transfer in progress.
    pub fn zero() -> (fraction: Fraction)
        ensures
            fraction.in_unit_interval(),
            fraction.num() == 0,
            fraction.den() == 1,
    {
        Fraction { numerator: 0, denominator: 1 }
    }

    /// Bytes counted so far, capped at the denominator.
    pub fn numerator(&self) -> (n: u64)
        ensures
            n == self.num(),
            self.in_unit_interval(),
    {
        proof {
            use_type_invariant(self);
        }
        self.numerator
    }

    /// Bytes expected in total; never zero.
    pub fn denominator(&self) -> (d: u64)
        ensures
            d == self.den(),
            self.in_unit_interval(),
    {
        proof {
            use_type_invariant(self);
        }
        self.denominator
    }
}

/// What `normalize` returns for the byte counts `received` and `total`, as a
/// pair of numerator and denominator.
///
/// With nothing expected the fraction is `0 / 1`; otherwise it is the bytes
/// received over the bytes expected, where bytes beyond the expected total do
/// not count.
pub open spec fn normalized(received: int, total: int) -> (int, int) {
    if total <= 0 {
        (0, 1)
    } else if received >= total {
        (total, total)
    } else if received < 0 {
        (0, total)
    } else {
        (received, total)
    }
}

/// Normalizes a raw byte counter against the expected payload size.
pub fn normalize(received: u64, total: u64) -> (fraction: Fraction)
    ensures
        fraction.in_unit_interval(),
        (fraction.num(), fraction.den()) == normalized(received as int, total as int),
{
    if total == 0 {
        Fraction { numerator: 0, denominator: 1 }
    } else if received >= total {
        Fraction { numerator: total, denominator: total }
    } else {
        Fraction { numerator: received, denominator: total }
    }
}

/// More bytes received never lowers the normalized fraction, and the fraction
/// stays within `[0, 1]`.
pub proof fn lemma_normalized_monotonic(earlier: int, later: int, total: int)
    requires
        0 <= earlier <= later,
    ensures
        normalized(earlier, total).0 <= normalized(later, total).0,
        normalized(earlier, total).1 == normalized(later, total).1,
        0 <= normalized(earlier, total).0 <= normalized(earlier, total).1,
        0 < normalized(earlier, total).1,
{
}

/// Once every expected byte has arrived, and something was expected, the
/// normalized fraction is one.
pub proof fn lemma_normalized_complete(received: int, total: int)
    requires
        0 < total <= received,
    ensures
        normalized(received, total).0 == normalized(received, total).1,
{
}

} // verus!
