//! The Schnorr proof of knowledge of a discrete logarithm: challenge
//! derivation, proving and verifying.

use crate::curve::{group_order, is_point_encoding};
use crate::encoding::be_value;
use crate::point::Point;
use crate::primitives::{curve_add, curve_mul, sha256, sha256_digest};
use crate::scalar::{generate_random_scalar, Scalar};
use crate::transcript::{build_transcript, encodings, transcript};
use vstd::arithmetic::div_mod::lemma_add_mod_noop_right;
use vstd::prelude::*;

verus! {

/// Why an operation of this library failed.
#[derive(Clone, Copy, Debug, PartialEq, Eq)]
pub enum DLogError {
    /// The digest of the transcript, read as a big-endian integer, is not
    /// below the group order, so it is no scalar.
    ChallengeDerivationFailed,
}

/// The scalar that a digest stands for: the digest read as a big-endian
/// integer, when that integer is below the group order.
pub open spec fn digest_scalar(digest: Seq<u8>) -> Result<nat, DLogError> {
    if be_value(digest) < group_order() {
        Ok(be_value(digest))
    } else {
        Err(DLogError::ChallengeDerivationFailed)
    }
}

/// The Fiat-Shamir challenge for a session, a participant and a list of
/// encoded points: the scalar that the SHA-256 digest of their transcript
/// stands for.
pub open spec fn challenge(sid: Seq<char>, pid: u32, points: Seq<Seq<u8>>) -> Result<
    nat,
    DLogError,
> {
    digest_scalar(sha256(transcript(sid, pid, points)))
}

/// The result of a challenge derivation, with the scalar taken by its value.
pub open spec fn scalar_outcome(r: Result<Scalar, DLogError>) -> Result<nat, DLogError> {
    match r {
        Ok(c) => Ok(c@),
        Err(e) => Err(e),
    }
}

/// Turns a 32-byte digest into a scalar, and fails where the digest is not
/// below the group order.
pub fn challenge_from_digest(digest: &[u8; 32]) -> (r: Result<Scalar, DLogError>)
    ensures
        scalar_outcome(r) == digest_scalar(digest@),
{
    match Scalar::from_bytes(digest) {
        Some(c) => Ok(c),
        None => Err(DLogError::ChallengeDerivationFailed),
    }
}

/// The verification equation `base * s == t + y * c`, over encoded points.
pub open spec fn schnorr_equation(base: Seq<u8>, y: Seq<u8>, t: Seq<u8>, s: nat, c: nat) -> bool {
    curve_mul(base, s) == curve_add(t, curve_mul(y, c))
}

/// What verifying the proof `(t, s)` for the public point `y` comes to: the
/// verification equation under the challenge that the transcript of `base`,
/// `y` and `t` gives.
pub open spec fn verdict(
    t: Seq<u8>,
    s: nat,
    sid: Seq<char>,
    pid: u32,
    y: Seq<u8>,
    base: Seq<u8>,
) -> Result<bool, DLogError> {
    match challenge(sid, pid, seq![base, y, t]) {
        Ok(c) => Ok(schnorr_equation(base, y, t, s, c)),
        Err(e) => Err(e),
    }
}

/// The proof that the secret `x` and the nonce `r` give: the commitment
/// `t = base * r` and the response `s = r + c * x` modulo the group order,
/// where `c` is the challenge for `base`, `y` and `t`.
pub open spec fn honest_proof(
    sid: Seq<char>,
    pid: u32,
    x: nat,
    y: Seq<u8>,
    base: Seq<u8>,
    r: nat,
) -> Result<(Seq<u8>, nat), DLogError> {
    let t = curve_mul(base, r);
    match challenge(sid, pid, seq![base, y, t]) {
        Ok(c) => Ok((t, (r + c * x) % group_order())),
        Err(e) => Err(e),
    }
}

/// A proof of knowledge of a discrete logarithm by the Schnorr protocol.
pub trait DiscreteLogProof: Sized {
    /// The encoding of the commitment `t`.
    spec fn commitment(&self) -> Seq<u8>;

    /// The response `s`.
    spec fn response(&self) -> nat;

    /// Derives the challenge for a session id, a participant id and a list
    /// of points, whose order counts. An empty list is in order. Fails where
    /// the digest of the transcript is not below the group order.
    fn hash_points(sid: &str, pid: u32, points: &[Point]) -> (r: Result<Scalar, DLogError>)
        ensures
            scalar_outcome(r) == challenge(sid@, pid, encodings(points@)),
    ;

    /// Proves knowledge of `x` with `y = base_point * x`, under a nonce drawn
    /// afresh from the operating system. That `y` is `base_point * x` is left
    /// to the caller: the proof for another `y` is made all the same, and
    /// will not verify. Fails only where the challenge cannot be derived.
    fn prove(sid: &str, pid: u32, x: &Scalar, y: &Point, base_point: &Point) -> (r: Result<
        Self,
        DLogError,
    >)
        ensures
            exists|nonce: nat|
                nonce < group_order() && #[trigger] honest_proof(
                    sid@,
                    pid,
                    x@,
                    y@,
                    base_point@,
                    nonce,
                ) == (match r {
                    Ok(p) => Ok::<(Seq<u8>, nat), DLogError>((p.commitment(), p.response())),
                    Err(e) => Err::<(Seq<u8>, nat), DLogError>(e),
                }),
    ;

    /// Verifies the proof against `y` and `base_point`, for the session and
    /// the participant given: `true` exactly when `base_point * s` equals
    /// `t + y * c` under the challenge `c` that they give with `t`. A proof
    /// that is wrong in any way is answered with `false`, not with an error;
    /// the one error is a challenge that cannot be derived.
    fn verify(&self, sid: &str, pid: u32, y: &Point, base_point: &Point) -> (r: Result<
        bool,
        DLogError,
    >)
        ensures
            r == verdict(self.commitment(), self.response(), sid@, pid, y@, base_point@),
    ;
}

/// A Schnorr proof: the commitment `t` and the response `s`.
#[derive(Debug, PartialEq, Eq)]
pub struct DLogProof {
    /// The commitment value t
    pub t: Point,
    /// The response value s
    pub s: Scalar,
}

impl Clone for DLogProof {
    fn clone(&self) -> (r: DLogProof)
        ensures
            r.t@ == self.t@,
            r.s == self.s,
    {
        DLogProof { t: self.t.clone(), s: self.s }
    }
}

/// The commitment and the response of `r`, or its error.
pub open spec fn outcome(r: Result<DLogProof, DLogError>) -> Result<(Seq<u8>, nat), DLogError> {
    match r {
        Ok(p) => Ok((p.t@, p.s@)),
        Err(e) => Err(e),
    }
}

impl DLogProof {
    /// The proof with commitment `t` and response `s`.
    pub fn new(t: Point, s: Scalar) -> (r: Self)
        ensures
            r.t == t,
            r.s == s,
    {
        DLogProof { t, s }
    }

    /// Proves knowledge of `x` with `y = base_point * x` under the given
    /// nonce. The proof is a function of the arguments; it keeps `x` secret
    /// only if the nonce is drawn uniformly, used once and never disclosed.
    pub fn prove_with_nonce(
        sid: &str,
        pid: u32,
        x: &Scalar,
        y: &Point,
        base_point: &Point,
        nonce: &Scalar,
    ) -> (r: Result<Self, DLogError>)
        ensures
            outcome(r) == honest_proof(sid@, pid, x@, y@, base_point@, nonce@),
    {
        let t = base_point.mul(nonce);
        let points = vec![base_point.clone(), y.clone(), t.clone()];
        assert(encodings(points@) =~= seq![base_point@, y@, t@]);
        let c = Self::hash_points(sid, pid, points.as_slice())?;
        let s = nonce.add(&c.mul(x));
        proof {
            lemma_add_mod_noop_right(nonce@ as int, (c@ * x@) as int, group_order() as int);
        }
        Ok(DLogProof { t, s })
    }
}

impl DiscreteLogProof for DLogProof {
    open spec fn commitment(&self) -> Seq<u8> {
        self.t@
    }

    open spec fn response(&self) -> nat {
        self.s@
    }

    fn hash_points(sid: &str, pid: u32, points: &[Point]) -> (r: Result<Scalar, DLogError>) {
        let message = build_transcript(sid, pid, points);
        let digest = sha256_digest(message.as_slice());
        challenge_from_digest(&digest)
    }

    fn prove(sid: &str, pid: u32, x: &Scalar, y: &Point, base_point: &Point) -> (r: Result<
        Self,
        DLogError,
    >) {
        let nonce = generate_random_scalar();
        Self::prove_with_nonce(sid, pid, x, y, base_point, &nonce)
    }

    fn verify(&self, sid: &str, pid: u32, y: &Point, base_point: &Point) -> (r: Result<
        bool,
        DLogError,
    >) {
        let points = vec![base_point.clone(), y.clone(), self.t.clone()];
        assert(encodings(points@) =~= seq![base_point@, y@, self.t@]);
        let c = Self::hash_points(sid, pid, points.as_slice())?;
        let lhs = base_point.mul(&self.s);
        let rhs = self.t.add(&y.mul(&c));
        Ok(lhs.is_equal(&rhs))
    }
}

/// Whether multiplying points by scalars, as named in this library, is an
/// action of the scalars on the points of the group: it distributes over the
/// sum of two scalars, and multiplying twice is multiplying by the product.
pub open spec fn scalars_act_on_points() -> bool {
    &&& forall|p: Seq<u8>, a: nat, b: nat|
        is_point_encoding(p) && a < group_order() && b < group_order() ==> #[trigger] curve_add(
            curve_mul(p, a),
            curve_mul(p, b),
        ) == curve_mul(p, (a + b) % group_order())
    &&& forall|p: Seq<u8>, a: nat, b: nat|
        is_point_encoding(p) && a < group_order() && b < group_order() ==> #[trigger] curve_mul(
            curve_mul(p, a),
            b,
        ) == curve_mul(p, (a * b) % group_order())
}

/// Completeness, granted the group laws: if scalars act on points, then for
/// every secret `x` and every nonce, the proof made for `y = base * x` is
/// accepted in the session and for the participant that it was made for,
/// whenever its challenge can be derived. The group laws themselves are a
/// hypothesis here: they hold of the curve, and nothing in this library
/// proves or assumes them of the arithmetic that it calls.
pub proof fn lemma_completeness_from_group_laws(
    sid: Seq<char>,
    pid: u32,
    x: nat,
    base: Seq<u8>,
    nonce: nat,
)
    requires
        is_point_encoding(base),
        x < group_order(),
        nonce < group_order(),
    ensures
        scalars_act_on_points() ==> match honest_proof(
            sid,
            pid,
            x,
            curve_mul(base, x),
            base,
            nonce,
        ) {
            Ok((t, s)) => verdict(t, s, sid, pid, curve_mul(base, x), base) == Ok::<
                bool,
                DLogError,
            >(true),
            Err(_) => true,
        },
{
    let n = group_order();
    let y = curve_mul(base, x);
    let t = curve_mul(base, nonce);
    if scalars_act_on_points() {
        if let Ok(c) = challenge(sid, pid, seq![base, y, t]) {
            let s = (nonce + c * x) % n;
            let cx = (x * c) % n;
            assert(curve_mul(y, c) == curve_mul(base, cx));
            assert(curve_add(t, curve_mul(base, cx)) == curve_mul(base, (nonce + cx) % n));
            assert((nonce + cx) % n == s) by {
                lemma_add_mod_noop_right(nonce as int, (x * c) as int, n as int);
                assert(x * c == c * x) by (nonlinear_arith);
            }
            assert(schnorr_equation(base, y, t, s, c));
        }
    }
}

} // verus!
