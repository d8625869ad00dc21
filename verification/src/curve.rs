//! The parameters of secp256k1 and the shape of a point's encoding.

use crate::encoding::be_value;
use vstd::prelude::*;

verus! {

/// The prime `p = 2^256 - 2^32 - 977` of the field that the curve is defined
/// over.
pub open spec fn field_modulus() -> nat {
    0xFFFFFFFF_FFFFFFFF_FFFFFFFF_FFFFFFFF_FFFFFFFF_FFFFFFFF_FFFFFFFE_FFFFFC2Fnat
}

/// The order `n` of the group of points; scalars are the integers modulo `n`.
pub open spec fn group_order() -> nat {
    0xFFFFFFFF_FFFFFFFF_FFFFFFFF_FFFFFFFE_BAAEDCE6_AF48A03B_BFD25E8C_D0364141nat
}

/// Whether `(x, y)` are reduced coordinates that satisfy `y^2 = x^3 + 7`.
pub open spec fn on_curve(x: nat, y: nat) -> bool {
    &&& x < field_modulus()
    &&& y < field_modulus()
    &&& (y * y) % field_modulus() == (x * x * x + 7) % field_modulus()
}

/// Whether `bytes` is the encoding of the point at infinity: one zero byte.
pub open spec fn is_identity_encoding(bytes: Seq<u8>) -> bool {
    bytes.len() == 1 && bytes[0] == 0
}

/// Whether `bytes` has the length and the tag of an uncompressed point:
/// `0x04`, then 32 bytes for each coordinate.
pub open spec fn is_uncompressed_shape(bytes: Seq<u8>) -> bool {
    bytes.len() == 65 && bytes[0] == 4
}

/// The x coordinate that an uncompressed encoding holds.
pub open spec fn encoded_x(bytes: Seq<u8>) -> nat
    recommends
        is_uncompressed_shape(bytes),
{
    be_value(bytes.subrange(1, 33))
}

/// The y coordinate that an uncompressed encoding holds.
pub open spec fn encoded_y(bytes: Seq<u8>) -> nat
    recommends
        is_uncompressed_shape(bytes),
{
    be_value(bytes.subrange(33, 65))
}

/// Whether `bytes` is the canonical uncompressed encoding of a group element:
/// the point at infinity, or a point of the curve.
pub open spec fn is_point_encoding(bytes: Seq<u8>) -> bool {
    ||| is_identity_encoding(bytes)
    ||| is_uncompressed_shape(bytes) && on_curve(encoded_x(bytes), encoded_y(bytes))
}

/// The x coordinate of the base point `G`.
pub open spec fn generator_x() -> nat {
    0x79BE667E_F9DCBBAC_55A06295_CE870B07_029BFCDB_2DCE28D9_59F2815B_16F81798nat
}

/// The y coordinate of the base point `G`.
pub open spec fn generator_y() -> nat {
    0x483ADA77_26A3C465_5DA4FBFC_0E1108A8_FD17B448_A6855419_9C47D08F_FB10D4B8nat
}

/// The base point lies on the curve.
pub proof fn lemma_generator_on_curve()
    ensures
        on_curve(generator_x(), generator_y()),
{
}

} // verus!
