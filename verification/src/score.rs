//! Relevance scores as bit patterns, ordered by the number they encode.

use vstd::prelude::*;

verus! {

/// The sign bit of a binary64 pattern.
pub const SIGN_BIT: u64 = 0x8000_0000_0000_0000;

/// The pattern of positive infinity: the largest magnitude that is a number.
pub const INFINITY_BITS: u64 = 0x7FF0_0000_0000_0000;

/// A relevance score, held as the bit pattern of an IEEE-754 binary64 number.
///
/// The library never does arithmetic on a score; it only orders scores. The
/// order of two numbers is the order of their ranks, see [`Score::spec_rank`].
#[derive(Clone, Copy, Debug, PartialEq, Eq)]
pub struct Score {
    pub bits: u64,
}

/// A single-precision number of an embedding, held as the bit pattern of an
/// IEEE-754 binary32 number. The library carries such numbers and never
/// looks into them.
#[derive(Clone, Copy, Debug, PartialEq, Eq)]
pub struct Binary32 {
    pub bits: u32,
}

impl Score {
    /// The pattern without its sign bit.
    pub open spec fn magnitude(&self) -> int {
        if self.bits >= SIGN_BIT {
            self.bits - SIGN_BIT
        } else {
            self.bits as int
        }
    }

    /// Whether the pattern encodes no number: the exponent is all ones and
    /// the fraction is not zero.
    pub open spec fn spec_is_nan(&self) -> bool {
        self.magnitude() > INFINITY_BITS
    }

    /// An integer that orders as the encoded number does: for two patterns
    /// that are numbers, the first number is less than the second exactly when
    /// the first rank is less than the second. Both zeros have rank 0. A
    /// pattern that is no number ranks beyond the infinity of its sign.
    pub open spec fn spec_rank(&self) -> int {
        if self.bits >= SIGN_BIT {
            -self.magnitude()
        } else {
            self.magnitude()
        }
    }

    /// Wraps a bit pattern.
    pub fn from_bits(bits: u64) -> (s: Score)
        ensures
            s.bits == bits,
    {
        Score { bits }
    }

    /// The bit pattern.
    pub fn to_bits(&self) -> (bits: u64)
        ensures
            bits == self.bits,
    {
        self.bits
    }

    /// Whether the pattern encodes no number.
    #[verifier::when_used_as_spec(spec_is_nan)]
    pub fn is_nan(&self) -> (nan: bool)
        ensures
            nan == self.spec_is_nan(),
    {
        if self.bits >= SIGN_BIT {
            self.bits - SIGN_BIT > INFINITY_BITS
        } else {
            self.bits > INFINITY_BITS
        }
    }

    /// The rank as a machine integer.
    pub fn rank(&self) -> (r: i64)
        ensures
            r == self.spec_rank(),
    {
        if self.bits >= SIGN_BIT {
            let magnitude: u64 = self.bits - SIGN_BIT;
            -(magnitude as i64)
        } else {
            self.bits as i64
        }
    }
}

/// The rank of a score stays within the range of `i64`, bounds excluded, and
/// the greatest rank of a number is that of positive infinity.
pub proof fn lemma_rank_bounds(s: Score)
    ensures
        -0x8000_0000_0000_0000 < s.spec_rank() < 0x8000_0000_0000_0000,
        !s.spec_is_nan() ==> -(INFINITY_BITS as int) <= s.spec_rank() <= INFINITY_BITS as int,
{
}

/// Two numbers with the same rank differ at most in the sign of a zero.
pub proof fn lemma_equal_rank(a: Score, b: Score)
    requires
        a.spec_rank() == b.spec_rank(),
    ensures
        a.bits == b.bits || (a.spec_rank() == 0 && b.spec_rank() == 0),
{
}

} // verus!
