//! Fixed-point quantities.
//!
//! Fractions are held in binary fixed point with sixteen fractional bits, so
//! that every step of the controller is integer arithmetic with a stated
//! rounding. Copa's parameter δ is held by its reciprocal, because the rules
//! that move δ are stated on `1/δ`: it grows by one or is halved.

use vstd::prelude::*;

verus! {

/// The number 1 in fixed point.
pub const FIXED_ONE: u64 = 65536;

/// `1/δ` after δ is doubled: the reciprocal is halved, rounded down, and never
/// falls below the smallest one that can be held.
pub open spec fn inv_halved(inv: u64) -> u64 {
    if inv >= 2 {
        (inv / 2) as u64
    } else {
        1
    }
}

/// `1/δ` after δ becomes `1/(1 + 1/δ)`: the reciprocal grows by one, and stops
/// at the largest one that can be held.
pub open spec fn inv_incremented(inv: u64) -> u64 {
    if inv + FIXED_ONE > u64::MAX {
        u64::MAX
    } else {
        (inv + FIXED_ONE) as u64
    }
}

/// `1/δ` after δ is capped at the δ whose reciprocal is `cap_inv`.
pub open spec fn inv_capped(inv: u64, cap_inv: u64) -> u64 {
    if inv < cap_inv {
        cap_inv
    } else {
        inv
    }
}

/// Copa's aggressiveness parameter δ, a positive number.
///
/// The value is held as `1/δ` in units of `1/FIXED_ONE`, so δ equals
/// `FIXED_ONE / inverse()`. A larger reciprocal is a smaller δ.
#[derive(Clone, Copy, PartialEq, Eq, Structural, Debug)]
pub struct Delta {
    inv: u64,
}

impl Delta {
    /// `1/δ` in units of `1/FIXED_ONE`.
    pub closed spec fn inverse(self) -> u64 {
        self.inv
    }

    /// δ is a positive number.
    pub open spec fn wf(self) -> bool {
        self.inverse() > 0
    }

    /// δ ≤ 1.
    pub open spec fn at_most_one(self) -> bool {
        self.inverse() >= FIXED_ONE
    }

    /// δ ≤ `other`.
    pub open spec fn le(self, other: Delta) -> bool {
        self.inverse() >= other.inverse()
    }

    /// Two values with the same reciprocal are the same value.
    pub proof fn lemma_inverse_determines(self, other: Delta)
        requires
            self.inverse() == other.inverse(),
        ensures
            self == other,
    {
    }

    /// The δ whose reciprocal, in units of `1/FIXED_ONE`, is `inv`. There is
    /// none for a reciprocal of zero.
    pub fn from_inverse(inv: u64) -> (r: Option<Delta>)
        ensures
            inv == 0 ==> r is None,
            inv > 0 ==> r is Some && r->0.inverse() == inv && r->0.wf(),
    {
        if inv == 0 {
            None
        } else {
            Some(Delta { inv })
        }
    }

    /// The δ that stands for `num / den`: its reciprocal is `den / num`,
    /// rounded down to a multiple of `1/FIXED_ONE`. There is none where `num`
    /// is zero or the reciprocal rounds to zero.
    pub fn from_ratio(num: u32, den: u32) -> (r: Option<Delta>)
        ensures
            (num == 0 || den * FIXED_ONE < num) ==> r is None,
            (num > 0 && den * FIXED_ONE >= num) ==> r is Some && r->0.inverse() == (den
                * FIXED_ONE) / (num as int) && r->0.wf(),
    {
        if num == 0 {
            return None;
        }
        let one: u64 = FIXED_ONE;
        assert(one == 65536);
        let scaled: u64 = den as u64 * one;
        if scaled < num as u64 {
            return None;
        }
        let inv: u64 = scaled / (num as u64);
        assert(inv > 0) by (nonlinear_arith)
            requires
                inv == scaled / (num as u64),
                scaled >= num,
                num > 0,
        ;
        Some(Delta { inv })
    }

    /// One half.
    pub fn half() -> (r: Delta)
        ensures
            r.inverse() == 2 * FIXED_ONE,
            r.wf(),
    {
        Delta { inv: 2 * FIXED_ONE }
    }

    /// `1/δ` in units of `1/FIXED_ONE`.
    pub fn inverse_scaled(&self) -> (r: u64)
        ensures
            r == self.inverse(),
    {
        self.inv
    }

    /// Whether δ ≤ 1.
    pub fn is_at_most_one(&self) -> (r: bool)
        ensures
            r == self.at_most_one(),
    {
        self.inv >= FIXED_ONE
    }

    /// 2·δ.
    pub fn doubled(&self) -> (r: Delta)
        requires
            self.wf(),
        ensures
            r.inverse() == inv_halved(self.inverse()),
            r.wf(),
    {
        if self.inv >= 2 {
            Delta { inv: self.inv / 2 }
        } else {
            Delta { inv: 1 }
        }
    }

    /// `1/(1 + 1/δ)`.
    pub fn stepped_down(&self) -> (r: Delta)
        requires
            self.wf(),
        ensures
            r.inverse() == inv_incremented(self.inverse()),
            r.wf(),
    {
        Delta { inv: self.inv.saturating_add(FIXED_ONE) }
    }

    /// The smaller of δ and `cap`.
    pub fn capped(&self, cap: &Delta) -> (r: Delta)
        requires
            self.wf(),
            cap.wf(),
        ensures
            r.inverse() == inv_capped(self.inverse(), cap.inverse()),
            r.wf(),
    {
        if self.inv < cap.inv {
            Delta { inv: cap.inv }
        } else {
            Delta { inv: self.inv }
        }
    }
}

} // verus!
