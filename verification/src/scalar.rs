//! Scalars: the integers modulo the group order.

use crate::curve::group_order;
use crate::encoding::{be_value, lemma_be_value_of_small};
use crate::primitives::{scalar_add, scalar_is_canonical, scalar_mul, scalar_random};
use vstd::prelude::*;

verus! {

/// An integer modulo the group order, held as its 32 big-endian bytes.
#[derive(Clone, Copy, Debug, PartialEq, Eq)]
pub struct Scalar {
    bytes: [u8; 32],
}

impl View for Scalar {
    type V = nat;

    /// The integer that the scalar stands for.
    closed spec fn view(&self) -> nat {
        be_value(self.bytes@)
    }
}

impl Scalar {
    /// A scalar is always reduced: its bytes hold a number below the group
    /// order.
    #[verifier::type_invariant]
    spec fn reduced(self) -> bool {
        be_value(self.bytes@) < group_order()
    }

    /// The additive identity.
    pub fn zero() -> (r: Scalar)
        ensures
            r@ == 0,
    {
        let bytes = [0u8; 32];
        proof {
            lemma_be_value_of_small(bytes@);
        }
        Scalar { bytes }
    }

    /// The multiplicative identity.
    pub fn one() -> (r: Scalar)
        ensures
            r@ == 1,
    {
        let mut bytes = [0u8; 32];
        bytes[31] = 1;
        proof {
            lemma_be_value_of_small(bytes@);
        }
        Scalar { bytes }
    }

    /// The scalar whose big-endian bytes are `bytes`, if they hold a number
    /// below the group order.
    pub fn from_bytes(bytes: &[u8; 32]) -> (r: Option<Scalar>)
        ensures
            r is Some <==> be_value(bytes@) < group_order(),
            r matches Some(s) ==> s@ == be_value(bytes@),
    {
        if scalar_is_canonical(bytes) {
            Some(Scalar { bytes: *bytes })
        } else {
            None
        }
    }

    /// The 32 big-endian bytes of the scalar.
    pub fn to_bytes(&self) -> (r: [u8; 32])
        ensures
            be_value(r@) == self@,
            self@ < group_order(),
    {
        proof {
            use_type_invariant(self);
        }
        self.bytes
    }

    /// The sum modulo the group order.
    pub fn add(&self, rhs: &Scalar) -> (r: Scalar)
        ensures
            r@ == (self@ + rhs@) % group_order(),
    {
        proof {
            use_type_invariant(self);
            use_type_invariant(rhs);
        }
        let bytes = scalar_add(&self.bytes, &rhs.bytes);
        Scalar { bytes }
    }

    /// The product modulo the group order.
    pub fn mul(&self, rhs: &Scalar) -> (r: Scalar)
        ensures
            r@ == (self@ * rhs@) % group_order(),
    {
        proof {
            use_type_invariant(self);
            use_type_invariant(rhs);
        }
        let bytes = scalar_mul(&self.bytes, &rhs.bytes);
        Scalar { bytes }
    }
}

/// A scalar drawn from the operating system's random source. Every reduced
/// scalar can come back, zero included. Panics if the operating system cannot
/// supply random bytes.
pub fn generate_random_scalar() -> (r: Scalar)
    ensures
        r@ < group_order(),
{
    let bytes = scalar_random();
    Scalar { bytes }
}

} // verus!
