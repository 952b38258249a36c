//! The numeric capability that matrix elements must offer.
//!
//! [`Numeric`] asks for a zero, a one, a sum and a product; [`Signed`] adds
//! the element minus one, which the determinant needs for odd permutations.
//! The operations of this crate ask for no more than that, and state their
//! results over the sum and the product of the element type, whatever these
//! are.
//!
//! The theorems of this crate need more: [`NumericLaws`] and [`SignedLaws`]
//! hold the algebraic laws they rest on.  An element type has them only by
//! proving them.
//!
//! The machine integers implement the traits with wrapping arithmetic: they
//! form the ring of integers modulo a power of two, in which every law holds
//! without a side condition on the size of the operands.

use vstd::prelude::*;

verus! {

/// An element type with an addition and a multiplication.
pub trait Numeric: Copy + Sized {
    /// The zero of the type.
    spec fn zero_spec() -> Self;

    /// The one of the type.
    spec fn one_spec() -> Self;

    /// The sum of two elements.
    spec fn add_spec(self, rhs: Self) -> Self;

    /// The product of two elements.
    spec fn mul_spec(self, rhs: Self) -> Self;

    fn zero() -> (r: Self)
        ensures
            r == Self::zero_spec(),
    ;

    fn one() -> (r: Self)
        ensures
            r == Self::one_spec(),
    ;

    fn plus(self, rhs: Self) -> (r: Self)
        ensures
            r == self.add_spec(rhs),
    ;

    fn times(self, rhs: Self) -> (r: Self)
        ensures
            r == self.mul_spec(rhs),
    ;
}

/// An element type that also has a minus one.
pub trait Signed: Numeric {
    /// The minus one of the type.
    spec fn neg_one_spec() -> Self;

    fn neg_one() -> (r: Self)
        ensures
            r == Self::neg_one_spec(),
    ;
}

/// The laws of zero, one, sum and product that the theorems on matrices
/// rest on.
pub trait NumericLaws: Numeric {
    /// Addition does not depend on the order of its operands.
    proof fn lemma_add_commutative(a: Self, b: Self)
        ensures
            a.add_spec(b) == b.add_spec(a),
    ;

    /// Addition does not depend on how a sum of three is grouped.
    proof fn lemma_add_associative(a: Self, b: Self, c: Self)
        ensures
            a.add_spec(b).add_spec(c) == a.add_spec(b.add_spec(c)),
    ;

    /// Adding zero changes nothing.
    proof fn lemma_add_zero(a: Self)
        ensures
            a.add_spec(Self::zero_spec()) == a,
            Self::zero_spec().add_spec(a) == a,
    ;

    /// Multiplying by one changes nothing.
    proof fn lemma_mul_one(a: Self)
        ensures
            a.mul_spec(Self::one_spec()) == a,
            Self::one_spec().mul_spec(a) == a,
    ;

    /// Multiplying by zero gives zero.
    proof fn lemma_mul_zero(a: Self)
        ensures
            a.mul_spec(Self::zero_spec()) == Self::zero_spec(),
            Self::zero_spec().mul_spec(a) == Self::zero_spec(),
    ;
}

/// The law of minus one.
pub trait SignedLaws: Signed + NumericLaws {
    /// One and minus one add up to zero.
    proof fn lemma_neg_one_cancels()
        ensures
            Self::one_spec().add_spec(Self::neg_one_spec()) == Self::zero_spec(),
    ;
}

impl Numeric for i32 {
    open spec fn zero_spec() -> i32 {
        0
    }

    open spec fn one_spec() -> i32 {
        1
    }

    open spec fn add_spec(self, rhs: i32) -> i32 {
        self.wrapping_add(rhs)
    }

    open spec fn mul_spec(self, rhs: i32) -> i32 {
        self.wrapping_mul(rhs)
    }

    fn zero() -> i32 {
        0
    }

    fn one() -> i32 {
        1
    }

    fn plus(self, rhs: i32) -> i32 {
        self.wrapping_add(rhs)
    }

    fn times(self, rhs: i32) -> i32 {
        self.wrapping_mul(rhs)
    }
}

impl NumericLaws for i32 {
    proof fn lemma_add_commutative(a: i32, b: i32) {
    }

    proof fn lemma_add_associative(a: i32, b: i32, c: i32) {
    }

    proof fn lemma_add_zero(a: i32) {
    }

    proof fn lemma_mul_one(a: i32) {
    }

    proof fn lemma_mul_zero(a: i32) {
    }
}

impl Signed for i32 {
    open spec fn neg_one_spec() -> i32 {
        -1i32
    }

    fn neg_one() -> i32 {
        -1
    }
}

impl SignedLaws for i32 {
    proof fn lemma_neg_one_cancels() {
    }
}

impl Numeric for i64 {
    open spec fn zero_spec() -> i64 {
        0
    }

    open spec fn one_spec() -> i64 {
        1
    }

    open spec fn add_spec(self, rhs: i64) -> i64 {
        self.wrapping_add(rhs)
    }

    open spec fn mul_spec(self, rhs: i64) -> i64 {
        self.wrapping_mul(rhs)
    }

    fn zero() -> i64 {
        0
    }

    fn one() -> i64 {
        1
    }

    fn plus(self, rhs: i64) -> i64 {
        self.wrapping_add(rhs)
    }

    fn times(self, rhs: i64) -> i64 {
        self.wrapping_mul(rhs)
    }
}

impl NumericLaws for i64 {
    proof fn lemma_add_commutative(a: i64, b: i64) {
    }

    proof fn lemma_add_associative(a: i64, b: i64, c: i64) {
    }

    proof fn lemma_add_zero(a: i64) {
    }

    proof fn lemma_mul_one(a: i64) {
    }

    proof fn lemma_mul_zero(a: i64) {
    }
}

impl Signed for i64 {
    open spec fn neg_one_spec() -> i64 {
        -1i64
    }

    fn neg_one() -> i64 {
        -1
    }
}

impl SignedLaws for i64 {
    proof fn lemma_neg_one_cancels() {
    }
}

impl Numeric for i128 {
    open spec fn zero_spec() -> i128 {
        0
    }

    open spec fn one_spec() -> i128 {
        1
    }

    open spec fn add_spec(self, rhs: i128) -> i128 {
        self.wrapping_add(rhs)
    }

    open spec fn mul_spec(self, rhs: i128) -> i128 {
        self.wrapping_mul(rhs)
    }

    fn zero() -> i128 {
        0
    }

    fn one() -> i128 {
        1
    }

    fn plus(self, rhs: i128) -> i128 {
        self.wrapping_add(rhs)
    }

    fn times(self, rhs: i128) -> i128 {
        self.wrapping_mul(rhs)
    }
}

impl NumericLaws for i128 {
    proof fn lemma_add_commutative(a: i128, b: i128) {
    }

    proof fn lemma_add_associative(a: i128, b: i128, c: i128) {
    }

    proof fn lemma_add_zero(a: i128) {
    }

    proof fn lemma_mul_one(a: i128) {
    }

    proof fn lemma_mul_zero(a: i128) {
    }
}

impl Signed for i128 {
    open spec fn neg_one_spec() -> i128 {
        -1i128
    }

    fn neg_one() -> i128 {
        -1
    }
}

impl SignedLaws for i128 {
    proof fn lemma_neg_one_cancels() {
    }
}

impl Numeric for u32 {
    open spec fn zero_spec() -> u32 {
        0
    }

    open spec fn one_spec() -> u32 {
        1
    }

    open spec fn add_spec(self, rhs: u32) -> u32 {
        self.wrapping_add(rhs)
    }

    open spec fn mul_spec(self, rhs: u32) -> u32 {
        self.wrapping_mul(rhs)
    }

    fn zero() -> u32 {
        0
    }

    fn one() -> u32 {
        1
    }

    fn plus(self, rhs: u32) -> u32 {
        self.wrapping_add(rhs)
    }

    fn times(self, rhs: u32) -> u32 {
        self.wrapping_mul(rhs)
    }
}

impl NumericLaws for u32 {
    proof fn lemma_add_commutative(a: u32, b: u32) {
    }

    proof fn lemma_add_associative(a: u32, b: u32, c: u32) {
    }

    proof fn lemma_add_zero(a: u32) {
    }

    proof fn lemma_mul_one(a: u32) {
    }

    proof fn lemma_mul_zero(a: u32) {
    }
}

impl Numeric for u64 {
    open spec fn zero_spec() -> u64 {
        0
    }

    open spec fn one_spec() -> u64 {
        1
    }

    open spec fn add_spec(self, rhs: u64) -> u64 {
        self.wrapping_add(rhs)
    }

    open spec fn mul_spec(self, rhs: u64) -> u64 {
        self.wrapping_mul(rhs)
    }

    fn zero() -> u64 {
        0
    }

    fn one() -> u64 {
        1
    }

    fn plus(self, rhs: u64) -> u64 {
        self.wrapping_add(rhs)
    }

    fn times(self, rhs: u64) -> u64 {
        self.wrapping_mul(rhs)
    }
}

impl NumericLaws for u64 {
    proof fn lemma_add_commutative(a: u64, b: u64) {
    }

    proof fn lemma_add_associative(a: u64, b: u64, c: u64) {
    }

    proof fn lemma_add_zero(a: u64) {
    }

    proof fn lemma_mul_one(a: u64) {
    }

    proof fn lemma_mul_zero(a: u64) {
    }
}

} // verus!
