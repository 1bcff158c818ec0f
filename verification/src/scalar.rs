//! Real numbers as the renderer's order logic sees them.
//!
//! A `Scalar` stands for one IEEE-754 double that is not NaN. It is held as the
//! double's *rank*: zero has rank 0, the smallest positive double rank 1, the
//! next larger one rank 2 and so on up to positive infinity; a negative double
//! has the negated rank of its absolute value. Two doubles compare as their
//! ranks do, so every comparison, minimum, maximum, absolute value and negation
//! of doubles is an integer operation on ranks. Arithmetic is not: sums and
//! products are computed on the doubles themselves by the caller, who moves
//! between the two forms with `from_bits` and `to_bits`.
use vstd::prelude::*;

verus! {

/// The bit that holds the sign in the bit pattern of a double.
pub const SIGN_BIT: u64 = 0x8000_0000_0000_0000;

/// The rank of positive infinity, which is also its bit pattern.
pub const INFINITY_RANK: i64 = 0x7FF0_0000_0000_0000;

/// The rank of 1.0, which is also its bit pattern.
pub const ONE_RANK: i64 = 0x3FF0_0000_0000_0000;

/// The bit pattern without its sign bit.
pub open spec fn magnitude_of_bits(bits: u64) -> int {
    if bits >= SIGN_BIT {
        bits - SIGN_BIT
    } else {
        bits as int
    }
}

/// Whether the bit pattern is that of a NaN: its exponent field is all ones
/// and its fraction is not zero.
pub open spec fn bits_are_nan(bits: u64) -> bool {
    magnitude_of_bits(bits) > INFINITY_RANK
}

/// The rank of the double with the given bit pattern.
pub open spec fn rank_of_bits(bits: u64) -> int {
    if bits >= SIGN_BIT {
        -magnitude_of_bits(bits)
    } else {
        magnitude_of_bits(bits)
    }
}

/// The bit pattern of the double with the given rank. Rank 0 gives positive
/// zero.
pub open spec fn bits_of_rank(rank: int) -> int {
    if rank < 0 {
        SIGN_BIT - rank
    } else {
        rank
    }
}

/// Whether an integer is the rank of some double.
pub open spec fn rank_in_range(rank: int) -> bool {
    -INFINITY_RANK <= rank <= INFINITY_RANK
}

/// A double that is not NaN.
#[derive(Clone, Copy, Debug, PartialEq, Eq, Structural)]
pub struct Scalar {
    rank: i64,
}

impl View for Scalar {
    type V = int;

    /// The rank of the double.
    closed spec fn view(&self) -> int {
        self.rank as int
    }
}

impl Scalar {
    /// Every scalar has the rank of some double.
    #[verifier::type_invariant]
    pub open spec fn in_range(self) -> bool {
        rank_in_range(self@)
    }

    /// The scalar of a given rank, as a mathematical value.
    pub closed spec fn of_rank(rank: int) -> Scalar {
        Scalar { rank: rank as i64 }
    }

    /// The scalar with the given bit pattern, unless the pattern is a NaN. Both
    /// zeros give the scalar of rank 0.
    pub fn from_bits(bits: u64) -> (r: Option<Scalar>)
        ensures
            bits_are_nan(bits) <==> r is None,
            r matches Some(s) ==> s@ == rank_of_bits(bits),
    {
        let negative: bool = bits >= SIGN_BIT;
        let magnitude: u64 = if negative { bits - SIGN_BIT } else { bits };
        if magnitude > INFINITY_RANK as u64 {
            None
        } else if negative {
            Some(Scalar { rank: -(magnitude as i64) })
        } else {
            Some(Scalar { rank: magnitude as i64 })
        }
    }

    /// The bit pattern of the double.
    pub fn to_bits(self) -> (bits: u64)
        ensures
            bits == bits_of_rank(self@),
            !bits_are_nan(bits),
            rank_of_bits(bits) == self@,
    {
        proof {
            use_type_invariant(&self);
        }
        if self.rank < 0 {
            SIGN_BIT + ((-self.rank) as u64)
        } else {
            self.rank as u64
        }
    }

    /// The scalar of a given rank.
    pub(crate) fn from_rank(rank: i64) -> (r: Scalar)
        requires
            rank_in_range(rank as int),
        ensures
            r@ == rank,
    {
        Scalar { rank }
    }

    /// The rank of the double.
    pub fn rank(self) -> (rank: i64)
        ensures
            rank == self@,
            rank_in_range(rank as int),
    {
        proof {
            use_type_invariant(&self);
        }
        self.rank
    }

    /// Zero.
    pub fn zero() -> (r: Scalar)
        ensures
            r@ == 0,
    {
        Scalar { rank: 0 }
    }

    /// One.
    pub fn one() -> (r: Scalar)
        ensures
            r@ == ONE_RANK,
    {
        Scalar { rank: ONE_RANK }
    }

    /// Positive infinity, the largest scalar.
    pub fn infinity() -> (r: Scalar)
        ensures
            r@ == INFINITY_RANK,
    {
        Scalar { rank: INFINITY_RANK }
    }

    /// Negative infinity, the smallest scalar.
    pub fn neg_infinity() -> (r: Scalar)
        ensures
            r@ == -INFINITY_RANK,
    {
        Scalar { rank: -INFINITY_RANK }
    }

    /// `self < other`.
    pub fn lt(self, other: Scalar) -> (b: bool)
        ensures
            b == (self@ < other@),
    {
        self.rank < other.rank
    }

    /// `self <= other`.
    pub fn le(self, other: Scalar) -> (b: bool)
        ensures
            b == (self@ <= other@),
    {
        self.rank <= other.rank
    }

    /// `self > other`.
    pub fn gt(self, other: Scalar) -> (b: bool)
        ensures
            b == (self@ > other@),
    {
        self.rank > other.rank
    }

    /// `self >= other`.
    pub fn ge(self, other: Scalar) -> (b: bool)
        ensures
            b == (self@ >= other@),
    {
        self.rank >= other.rank
    }

    /// The smaller of two scalars, the first where they are equal.
    pub open spec fn min_of(a: Scalar, b: Scalar) -> Scalar {
        if a@ <= b@ {
            a
        } else {
            b
        }
    }

    /// The larger of two scalars, the first where they are equal.
    pub open spec fn max_of(a: Scalar, b: Scalar) -> Scalar {
        if a@ >= b@ {
            a
        } else {
            b
        }
    }

    /// The smaller of two scalars.
    pub fn min(self, other: Scalar) -> (r: Scalar)
        ensures
            r == Scalar::min_of(self, other),
    {
        if self.rank <= other.rank {
            self
        } else {
            other
        }
    }

    /// The larger of two scalars.
    pub fn max(self, other: Scalar) -> (r: Scalar)
        ensures
            r == Scalar::max_of(self, other),
    {
        if self.rank >= other.rank {
            self
        } else {
            other
        }
    }

    /// The scalar with the opposite sign.
    pub fn neg(self) -> (r: Scalar)
        ensures
            r@ == -self@,
    {
        proof {
            use_type_invariant(&self);
        }
        Scalar { rank: -self.rank }
    }

    /// The absolute value.
    pub fn abs(self) -> (r: Scalar)
        ensures
            r@ == if self@ < 0 { -self@ } else { self@ },
    {
        proof {
            use_type_invariant(&self);
        }
        if self.rank < 0 {
            Scalar { rank: -self.rank }
        } else {
            self
        }
    }

    /// Whether the scalar lies below zero.
    pub fn is_negative(self) -> (b: bool)
        ensures
            b == (self@ < 0),
    {
        self.rank < 0
    }
}

/// Two scalars are the same value exactly if their ranks are equal.
pub broadcast proof fn lemma_scalar_equal_by_rank(a: Scalar, b: Scalar)
    ensures
        (#[trigger] a@ == #[trigger] b@) <==> a == b,
{
}

/// `of_rank` gives the scalar whose view is the rank.
pub broadcast proof fn lemma_of_rank_view(rank: int)
    requires
        rank_in_range(rank),
    ensures
        (#[trigger] Scalar::of_rank(rank))@ == rank,
{
}

/// Going from a rank to its bit pattern and back gives the rank again, and the
/// pattern is never a NaN.
pub proof fn lemma_rank_round_trip(rank: int)
    requires
        rank_in_range(rank),
    ensures
        0 <= bits_of_rank(rank) <= u64::MAX,
        !bits_are_nan(bits_of_rank(rank) as u64),
        rank_of_bits(bits_of_rank(rank) as u64) == rank,
{
}

/// Going from a bit pattern to its rank and back gives the pattern again,
/// except for negative zero, which comes back as positive zero.
pub proof fn lemma_bits_round_trip(bits: u64)
    requires
        !bits_are_nan(bits),
    ensures
        rank_in_range(rank_of_bits(bits)),
        bits_of_rank(rank_of_bits(bits)) == if bits == SIGN_BIT { 0 } else { bits as int },
{
}

} // verus!
