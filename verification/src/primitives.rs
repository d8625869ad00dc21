//! The arithmetic that this library takes from `k256`, `sha2` and `rand_core`.
//!
//! Every function here hands bytes to an outside crate and hands bytes back.
//! Its contract is believed, not proved: it says what the crate's source and
//! documentation show of the call, and the rest of the library is proved from
//! these contracts alone. What a call returns is stated in full where a few
//! lines can state it, and is given a name where it cannot: the digest of a
//! message, the sum of two points, the multiple of a point.

use crate::curve::{group_order, is_point_encoding, is_uncompressed_shape};
use crate::encoding::be_value;
use k256::elliptic_curve::sec1::{FromEncodedPoint, ToEncodedPoint};
use k256::elliptic_curve::{Field, PrimeField};
use sha2::Digest;
use vstd::prelude::*;

verus! {

/// The SHA-256 digest of `message`, as `sha2::Sha256::digest` computes it.
pub uninterp spec fn sha256(message: Seq<u8>) -> Seq<u8>;

/// The encoding of the sum of the points that `p` and `q` encode, as `k256`
/// adds two of its `ProjectivePoint`s.
pub uninterp spec fn curve_add(p: Seq<u8>, q: Seq<u8>) -> Seq<u8>;

/// The encoding of the point that `p` encodes multiplied by the scalar `k`,
/// as `k256` multiplies a `ProjectivePoint` by a `Scalar`.
pub uninterp spec fn curve_mul(p: Seq<u8>, k: nat) -> Seq<u8>;

/// Calls `sha2::Sha256::digest`. Claimed: the 32 bytes returned are a
/// function of the message alone, the one named `sha256`.
#[verifier::external_body]
pub(crate) fn sha256_digest(message: &[u8]) -> (digest: [u8; 32])
    ensures
        digest@ == sha256(message@),
{
    sha2::Sha256::digest(message).into()
}

/// Calls `k256::Scalar::from_repr`. Claimed: it accepts 32 bytes exactly when
/// the big-endian integer that they hold is below the group order.
#[verifier::external_body]
pub(crate) fn scalar_is_canonical(bytes: &[u8; 32]) -> (ok: bool)
    ensures
        ok == (be_value(bytes@) < group_order()),
{
    k256::Scalar::from_repr((*bytes).into()).is_some().into()
}

/// Calls `+` on two `k256::Scalar`s. Claimed: the result is the sum modulo
/// the group order, and `to_bytes` gives its 32 big-endian bytes.
#[verifier::external_body]
pub(crate) fn scalar_add(a: &[u8; 32], b: &[u8; 32]) -> (sum: [u8; 32])
    requires
        be_value(a@) < group_order(),
        be_value(b@) < group_order(),
    ensures
        be_value(sum@) == (be_value(a@) + be_value(b@)) % group_order(),
{
    let x = k256::Scalar::from_repr((*a).into()).unwrap();
    let y = k256::Scalar::from_repr((*b).into()).unwrap();
    (x + y).to_bytes().into()
}

/// Calls `*` on two `k256::Scalar`s. Claimed: the result is the product
/// modulo the group order, and `to_bytes` gives its 32 big-endian bytes.
#[verifier::external_body]
pub(crate) fn scalar_mul(a: &[u8; 32], b: &[u8; 32]) -> (product: [u8; 32])
    requires
        be_value(a@) < group_order(),
        be_value(b@) < group_order(),
    ensures
        be_value(product@) == (be_value(a@) * be_value(b@)) % group_order(),
{
    let x = k256::Scalar::from_repr((*a).into()).unwrap();
    let y = k256::Scalar::from_repr((*b).into()).unwrap();
    (x * y).to_bytes().into()
}

/// Calls `k256::Scalar::random` on `rand_core::OsRng`. Claimed: whatever is
/// drawn is a reduced scalar, and nothing else. The call panics if the
/// operating system cannot supply random bytes.
#[verifier::external_body]
pub(crate) fn scalar_random() -> (r: [u8; 32])
    ensures
        be_value(r@) < group_order(),
{
    k256::Scalar::random(&mut rand_core::OsRng).to_bytes().into()
}

/// Calls `k256::EncodedPoint::from_bytes`, then
/// `k256::AffinePoint::from_encoded_point`. Claimed: of 65 bytes tagged as an
/// uncompressed point, the two accept exactly those whose coordinates are
/// both below the field modulus and satisfy the curve equation.
#[verifier::external_body]
pub(crate) fn uncompressed_is_on_curve(bytes: &[u8]) -> (ok: bool)
    requires
        is_uncompressed_shape(bytes@),
    ensures
        ok == is_point_encoding(bytes@),
{
    match k256::EncodedPoint::from_bytes(bytes) {
        Ok(encoded) => k256::AffinePoint::from_encoded_point(&encoded).is_some().into(),
        Err(_) => false,
    }
}

/// Calls `+` on two `k256::ProjectivePoint`s, decoded from and encoded to
/// the uncompressed form by `k256`. Claimed: the sum of two group elements is
/// a group element, so what `to_encoded_point` gives for it is a point
/// encoding; and it is a function of the two encodings alone, the one named
/// `curve_add`.
#[verifier::external_body]
pub(crate) fn point_add(p: &[u8], q: &[u8]) -> (sum: Vec<u8>)
    requires
        is_point_encoding(p@),
        is_point_encoding(q@),
    ensures
        sum@ == curve_add(p@, q@),
        is_point_encoding(sum@),
{
    let p = k256::EncodedPoint::from_bytes(p).unwrap();
    let q = k256::EncodedPoint::from_bytes(q).unwrap();
    let a = k256::ProjectivePoint::from_encoded_point(&p).unwrap();
    let b = k256::ProjectivePoint::from_encoded_point(&q).unwrap();
    (a + b).to_encoded_point(false).as_bytes().to_vec()
}

/// Calls `*` on a `k256::ProjectivePoint` and a `k256::Scalar`, decoded from
/// and encoded to bytes by `k256`. Claimed: the multiple of a group element
/// is a group element, so what `to_encoded_point` gives for it is a point
/// encoding; and it is a function of the point's encoding and the scalar
/// alone, the one named `curve_mul`.
#[verifier::external_body]
pub(crate) fn point_mul(p: &[u8], k: &[u8; 32]) -> (product: Vec<u8>)
    requires
        is_point_encoding(p@),
        be_value(k@) < group_order(),
    ensures
        product@ == curve_mul(p@, be_value(k@)),
        is_point_encoding(product@),
{
    let p = k256::EncodedPoint::from_bytes(p).unwrap();
    let a = k256::ProjectivePoint::from_encoded_point(&p).unwrap();
    let s = k256::Scalar::from_repr((*k).into()).unwrap();
    (a * s).to_encoded_point(false).as_bytes().to_vec()
}

} // verus!
