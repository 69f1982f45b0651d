//! The prime field over which circuit values live.
//!
//! Every circuit quantity is an element of the integers modulo
//! `FIELD_MODULUS`, a 64-bit prime, so that all arithmetic can be carried
//! out exactly with 128-bit intermediates.

use vstd::prelude::*;

verus! {

/// The field modulus: the prime 2^64 - 2^32 + 1.
pub const FIELD_MODULUS: u64 = 18446744069414584321;

/// Field addition on canonical representatives.
pub open spec fn f_add(a: int, b: int) -> int {
    (a + b) % (FIELD_MODULUS as int)
}

/// Field subtraction on canonical representatives in `[0, FIELD_MODULUS)`.
pub open spec fn f_sub(a: int, b: int) -> int {
    (a + FIELD_MODULUS - b) % (FIELD_MODULUS as int)
}

/// Field multiplication on canonical representatives.
pub open spec fn f_mul(a: int, b: int) -> int {
    (a * b) % (FIELD_MODULUS as int)
}

/// A field element, kept as its canonical representative.
#[derive(Clone, Copy, Debug, PartialEq, Eq, Structural)]
pub struct Fr {
    repr: u64,
}

impl Fr {
    /// The canonical representative of this element, as a mathematical integer.
    pub closed spec fn as_int(self) -> int {
        self.repr as int
    }

    #[verifier::type_invariant]
    pub closed spec fn inv(self) -> bool {
        self.repr < FIELD_MODULUS
    }

    /// Representatives are canonical: equal values mean equal elements.
    pub proof fn lemma_canonical(a: Fr, b: Fr)
        ensures
            (a == b) <==> (a.as_int() == b.as_int()),
    {
    }

    /// The element one, at the specification level.
    pub closed spec fn spec_one() -> Fr {
        Fr { repr: 1 }
    }

    /// The element zero, at the specification level.
    pub closed spec fn spec_zero() -> Fr {
        Fr { repr: 0 }
    }

    /// The element with representative `x`, at the specification level.
    pub closed spec fn from_int(x: int) -> Fr {
        Fr { repr: (x % (FIELD_MODULUS as int)) as u64 }
    }

    /// An element is pinned by its representative: any element whose
    /// representative is a canonical `x` is `from_int(x)`.
    pub proof fn lemma_from_int(a: Fr, x: int)
        requires
            0 <= x < FIELD_MODULUS,
            a.as_int() == x,
        ensures
            a == Fr::from_int(x),
            Fr::from_int(x).as_int() == x,
    {
    }

    /// The representatives of the two specification-level identities.
    pub proof fn lemma_identities()
        ensures
            Fr::spec_one().as_int() == 1,
            Fr::spec_zero().as_int() == 0,
    {
    }

    /// The additive identity.
    pub fn zero() -> (r: Fr)
        ensures
            r == Fr::spec_zero(),
            r.as_int() == 0,
    {
        Fr { repr: 0 }
    }

    /// The multiplicative identity.
    pub fn one() -> (r: Fr)
        ensures
            r == Fr::spec_one(),
            r.as_int() == 1,
    {
        Fr { repr: 1 }
    }

    /// The element corresponding to a 64-bit integer, reduced mod the prime.
    pub fn from_u64(x: u64) -> (r: Fr)
        ensures
            r.as_int() == x as int % (FIELD_MODULUS as int),
    {
        Fr { repr: x % FIELD_MODULUS }
    }

    /// The element corresponding to a 128-bit integer, reduced mod the prime.
    pub fn from_u128(x: u128) -> (r: Fr)
        ensures
            r.as_int() == x as int % (FIELD_MODULUS as int),
    {
        let m: u128 = x % (FIELD_MODULUS as u128);
        Fr { repr: m as u64 }
    }

    /// Whether this element is the additive identity.
    pub fn is_zero(&self) -> (b: bool)
        ensures
            b == (self.as_int() == 0),
    {
        self.repr == 0
    }

    /// Whether this element is the multiplicative identity.
    pub fn is_one(&self) -> (b: bool)
        ensures
            b == (self.as_int() == 1),
    {
        self.repr == 1
    }

    /// The representative widened to 128 bits; for a 64-bit field this is the
    /// whole value, i.e. its lower 128 bits.
    pub fn as_u128(self) -> (r: u128)
        ensures
            r as int == self.as_int(),
    {
        self.repr as u128
    }

    /// Field addition.
    pub fn add(self, other: Fr) -> (r: Fr)
        ensures
            r.as_int() == f_add(self.as_int(), other.as_int()),
    {
        let s: u128 = (self.repr as u128) + (other.repr as u128);
        let m: u128 = s % (FIELD_MODULUS as u128);
        Fr { repr: m as u64 }
    }

    /// Field subtraction.
    pub fn sub(self, other: Fr) -> (r: Fr)
        ensures
            r.as_int() == f_sub(self.as_int(), other.as_int()),
    {
        proof {
            use_type_invariant(self);
            use_type_invariant(other);
        }
        let s: u128 = (self.repr as u128) + (FIELD_MODULUS as u128) - (other.repr as u128);
        let m: u128 = s % (FIELD_MODULUS as u128);
        Fr { repr: m as u64 }
    }

    /// Field multiplication.
    pub fn mul(self, other: Fr) -> (r: Fr)
        ensures
            r.as_int() == f_mul(self.as_int(), other.as_int()),
    {
        proof {
            use_type_invariant(self);
            use_type_invariant(other);
            assert((self.repr as int) * (other.repr as int) <= u128::MAX) by (nonlinear_arith)
                requires
                    self.repr <= u64::MAX,
                    other.repr <= u64::MAX,
            ;
        }
        let p: u128 = (self.repr as u128) * (other.repr as u128);
        let m: u128 = p % (FIELD_MODULUS as u128);
        Fr { repr: m as u64 }
    }

    /// Field negation.
    pub fn neg(self) -> (r: Fr)
        ensures
            r.as_int() == f_sub(0, self.as_int()),
    {
        proof {
            use_type_invariant(self);
        }
        let s: u64 = (FIELD_MODULUS - self.repr) % FIELD_MODULUS;
        Fr { repr: s }
    }
}

} // verus!
