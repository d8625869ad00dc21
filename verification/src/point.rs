//! Points: the elements of the secp256k1 group.

use crate::curve::{
    encoded_x, encoded_y, generator_x, generator_y, is_identity_encoding, is_point_encoding,
    is_uncompressed_shape, lemma_generator_on_curve,
};
use crate::encoding::{be_value, bytes_eq};
use crate::primitives::{curve_add, curve_mul, point_add, point_mul, uncompressed_is_on_curve};
use crate::scalar::Scalar;
use vstd::prelude::*;

verus! {

/// An element of the group, held as its canonical encoding: one zero byte for
/// the point at infinity, else `0x04` and the two 32-byte coordinates.
#[derive(Debug, PartialEq, Eq)]
pub struct Point {
    bytes: Vec<u8>,
}

impl View for Point {
    type V = Seq<u8>;

    /// The canonical encoding of the point.
    closed spec fn view(&self) -> Seq<u8> {
        self.bytes@
    }
}

impl Clone for Point {
    fn clone(&self) -> (r: Point)
        ensures
            r@ == self@,
    {
        proof {
            use_type_invariant(self);
        }
        Point { bytes: self.bytes.clone() }
    }
}

impl Point {
    /// The bytes held are always the encoding of a group element.
    #[verifier::type_invariant]
    spec fn well_formed(self) -> bool {
        is_point_encoding(self.bytes@)
    }

    /// The point at infinity, the identity of the group.
    pub fn identity() -> (r: Point)
        ensures
            is_identity_encoding(r@),
    {
        let mut bytes: Vec<u8> = Vec::new();
        bytes.push(0u8);
        Point { bytes }
    }

    /// The base point `G` of secp256k1.
    pub fn generator() -> (r: Point)
        ensures
            is_uncompressed_shape(r@),
            encoded_x(r@) == generator_x(),
            encoded_y(r@) == generator_y(),
    {
        let encoding: [u8; 65] = [
            0x04,
            0x79, 0xbe, 0x66, 0x7e, 0xf9, 0xdc, 0xbb, 0xac,
            0x55, 0xa0, 0x62, 0x95, 0xce, 0x87, 0x0b, 0x07,
            0x02, 0x9b, 0xfc, 0xdb, 0x2d, 0xce, 0x28, 0xd9,
            0x59, 0xf2, 0x81, 0x5b, 0x16, 0xf8, 0x17, 0x98,
            0x48, 0x3a, 0xda, 0x77, 0x26, 0xa3, 0xc4, 0x65,
            0x5d, 0xa4, 0xfb, 0xfc, 0x0e, 0x11, 0x08, 0xa8,
            0xfd, 0x17, 0xb4, 0x48, 0xa6, 0x85, 0x54, 0x19,
            0x9c, 0x47, 0xd0, 0x8f, 0xfb, 0x10, 0xd4, 0xb8,
        ];
        let bytes = vstd::slice::slice_to_vec(encoding.as_slice());
        proof {
            reveal_with_fuel(be_value, 33);
            assert(be_value(bytes@.subrange(1, 33)) == generator_x());
            assert(be_value(bytes@.subrange(33, 65)) == generator_y());
            lemma_generator_on_curve();
        }
        Point { bytes }
    }

    /// The point that `bytes` encodes, if they are the canonical encoding of
    /// a group element.
    pub fn from_bytes(bytes: &[u8]) -> (r: Option<Point>)
        ensures
            r is Some <==> is_point_encoding(bytes@),
            r matches Some(p) ==> p@ == bytes@,
    {
        let accepted = if bytes.len() == 1 {
            bytes[0] == 0
        } else if bytes.len() == 65 && bytes[0] == 4 {
            uncompressed_is_on_curve(bytes)
        } else {
            false
        };
        if accepted {
            let held = vstd::slice::slice_to_vec(bytes);
            Some(Point { bytes: held })
        } else {
            None
        }
    }

    /// The canonical encoding of the point.
    pub fn as_bytes(&self) -> (r: &[u8])
        ensures
            r@ == self@,
            is_point_encoding(self@),
    {
        proof {
            use_type_invariant(self);
        }
        self.bytes.as_slice()
    }

    /// Whether this is the point at infinity.
    pub fn is_identity(&self) -> (r: bool)
        ensures
            r == is_identity_encoding(self@),
    {
        proof {
            use_type_invariant(self);
        }
        self.bytes.len() == 1
    }

    /// Whether the two are the same group element.
    pub fn is_equal(&self, other: &Point) -> (r: bool)
        ensures
            r == (self@ == other@),
    {
        bytes_eq(self.bytes.as_slice(), other.bytes.as_slice())
    }

    /// The sum of the two points.
    pub fn add(&self, rhs: &Point) -> (r: Point)
        ensures
            r@ == curve_add(self@, rhs@),
    {
        proof {
            use_type_invariant(self);
            use_type_invariant(rhs);
        }
        let bytes = point_add(self.bytes.as_slice(), rhs.bytes.as_slice());
        Point { bytes }
    }

    /// The point multiplied by the scalar `k`.
    pub fn mul(&self, k: &Scalar) -> (r: Point)
        ensures
            r@ == curve_mul(self@, k@),
    {
        proof {
            use_type_invariant(self);
        }
        let scalar = k.to_bytes();
        let bytes = point_mul(self.bytes.as_slice(), &scalar);
        Point { bytes }
    }
}

} // verus!
