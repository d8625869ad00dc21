//! The Fiat-Shamir transcript: the exact bytes that the challenge is hashed
//! from.

use crate::curve::is_point_encoding;
use crate::encoding::{lemma_u32_be_bytes_injective, u32_be_bytes, u32_to_be_bytes};
use crate::point::Point;
use vstd::prelude::*;
use vstd::string::*;
use vstd::utf8::{encode_utf8, encode_utf8_decode_utf8};

verus! {

/// The encodings of `points`, in order.
pub open spec fn encodings(points: Seq<Point>) -> Seq<Seq<u8>> {
    points.map_values(|p: Point| p@)
}

/// The bytes that bind a challenge to its context: the UTF-8 bytes of the
/// session id, the four big-endian bytes of the participant id, then the
/// encoding of each point in list order.
pub open spec fn transcript(sid: Seq<char>, pid: u32, points: Seq<Seq<u8>>) -> Seq<u8> {
    encode_utf8(sid) + u32_be_bytes(pid) + points.flatten()
}

/// Lays out the transcript of `sid`, `pid` and `points`.
pub fn build_transcript(sid: &str, pid: u32, points: &[Point]) -> (out: Vec<u8>)
    ensures
        out@ == transcript(sid@, pid, encodings(points@)),
{
    let mut out: Vec<u8> = Vec::new();
    out.extend_from_slice(sid.as_bytes());
    let pid_bytes = u32_to_be_bytes(pid);
    out.extend_from_slice(pid_bytes.as_slice());
    let ghost head = encode_utf8(sid@) + u32_be_bytes(pid);
    assert(out@ =~= head);
    let mut i: usize = 0;
    while i < points.len()
        invariant
            i <= points@.len(),
            out@ == head + encodings(points@).take(i as int).flatten(),
        decreases points@.len() - i,
    {
        let ghost before = out@;
        out.extend_from_slice(points[i].as_bytes());
        proof {
            let all = encodings(points@);
            assert(all.take(i + 1) =~= all.take(i as int).push(all[i as int]));
            all.take(i as int).lemma_flatten_push(all[i as int]);
            assert(out@ =~= before + points@[i as int]@);
        }
        i += 1;
    }
    assert(encodings(points@).take(i as int) =~= encodings(points@));
    out
}

/// Two byte strings that are equal after the same string is appended to
/// each are equal.
proof fn lemma_same_suffix_cancels(a: Seq<u8>, b: Seq<u8>, rest: Seq<u8>)
    requires
        a + rest == b + rest,
    ensures
        a == b,
{
    assert((a + rest).len() == a.len() + rest.len());
    assert((b + rest).len() == b.len() + rest.len());
    assert(a.len() == b.len());
    assert forall|i: int| 0 <= i < a.len() implies a[i] == b[i] by {
        assert((a + rest)[i] == a[i]);
        assert((b + rest)[i] == b[i]);
    }
    assert(a =~= b);
}

/// Two byte strings that are equal after each is appended to the same string
/// are equal.
proof fn lemma_same_prefix_cancels(head: Seq<u8>, a: Seq<u8>, b: Seq<u8>)
    requires
        head + a == head + b,
    ensures
        a == b,
{
    assert((head + a).len() == head.len() + a.len());
    assert((head + b).len() == head.len() + b.len());
    assert(a.len() == b.len());
    assert forall|i: int| 0 <= i < a.len() implies a[i] == b[i] by {
        assert((head + a)[head.len() + i] == a[i]);
        assert((head + b)[head.len() + i] == b[i]);
    }
    assert(a =~= b);
}

/// Point encodings are self-delimiting: two lists of them that concatenate to
/// the same bytes are the same list.
pub proof fn lemma_encodings_concatenate_uniquely(ps: Seq<Seq<u8>>, qs: Seq<Seq<u8>>)
    requires
        forall|i: int| 0 <= i < ps.len() ==> is_point_encoding(#[trigger] ps[i]),
        forall|i: int| 0 <= i < qs.len() ==> is_point_encoding(#[trigger] qs[i]),
        ps.flatten() == qs.flatten(),
    ensures
        ps == qs,
    decreases ps.len(),
{
    if ps.len() == 0 {
        if qs.len() > 0 {
            assert(is_point_encoding(qs[0]));
            assert(qs.flatten() == qs.first() + qs.drop_first().flatten());
            assert(qs.flatten().len() > 0);
        }
        assert(ps =~= qs);
    } else {
        let p = ps.first();
        let ps_rest = ps.drop_first();
        assert(is_point_encoding(ps[0]));
        assert(ps.flatten() == p + ps_rest.flatten());
        assert(ps.flatten()[0] == p[0]);
        assert(qs.len() > 0);
        let q = qs.first();
        let qs_rest = qs.drop_first();
        assert(is_point_encoding(qs[0]));
        assert(qs.flatten() == q + qs_rest.flatten());
        assert(qs.flatten()[0] == q[0]);
        assert(p.len() == q.len());
        assert forall|i: int| 0 <= i < p.len() implies p[i] == q[i] by {
            assert((p + ps_rest.flatten())[i] == p[i]);
            assert((q + qs_rest.flatten())[i] == q[i]);
        }
        assert(p =~= q);
        lemma_same_prefix_cancels(p, ps_rest.flatten(), qs_rest.flatten());
        assert forall|i: int| 0 <= i < ps_rest.len() implies is_point_encoding(
            #[trigger] ps_rest[i],
        ) by {
            assert(ps_rest[i] == ps[i + 1]);
        }
        assert forall|i: int| 0 <= i < qs_rest.len() implies is_point_encoding(
            #[trigger] qs_rest[i],
        ) by {
            assert(qs_rest[i] == qs[i + 1]);
        }
        lemma_encodings_concatenate_uniquely(ps_rest, qs_rest);
        assert(ps =~= seq![p] + ps_rest);
        assert(qs =~= seq![q] + qs_rest);
    }
}

/// Session binding of the transcript: with the participant and the points
/// fixed, two different session ids give two different transcripts.
pub proof fn lemma_transcript_binds_session(
    sid1: Seq<char>,
    sid2: Seq<char>,
    pid: u32,
    points: Seq<Seq<u8>>,
)
    requires
        sid1 != sid2,
    ensures
        transcript(sid1, pid, points) != transcript(sid2, pid, points),
{
    if transcript(sid1, pid, points) == transcript(sid2, pid, points) {
        let rest = u32_be_bytes(pid) + points.flatten();
        assert(transcript(sid1, pid, points) =~= encode_utf8(sid1) + rest);
        assert(transcript(sid2, pid, points) =~= encode_utf8(sid2) + rest);
        lemma_same_suffix_cancels(encode_utf8(sid1), encode_utf8(sid2), rest);
        encode_utf8_decode_utf8(sid1);
        encode_utf8_decode_utf8(sid2);
    }
}

/// Participant binding of the transcript: with the session and the points
/// fixed, two different participant ids give two different transcripts.
pub proof fn lemma_transcript_binds_participant(
    sid: Seq<char>,
    pid1: u32,
    pid2: u32,
    points: Seq<Seq<u8>>,
)
    requires
        pid1 != pid2,
    ensures
        transcript(sid, pid1, points) != transcript(sid, pid2, points),
{
    if transcript(sid, pid1, points) == transcript(sid, pid2, points) {
        let head = encode_utf8(sid);
        let tail = points.flatten();
        assert(transcript(sid, pid1, points) =~= head + (u32_be_bytes(pid1) + tail));
        assert(transcript(sid, pid2, points) =~= head + (u32_be_bytes(pid2) + tail));
        lemma_same_prefix_cancels(head, u32_be_bytes(pid1) + tail, u32_be_bytes(pid2) + tail);
        lemma_same_suffix_cancels(u32_be_bytes(pid1), u32_be_bytes(pid2), tail);
        lemma_u32_be_bytes_injective(pid1, pid2);
    }
}

/// Sensitivity of the transcript to the points and to their order: with the
/// session and the participant fixed, two lists of point encodings that
/// differ anywhere, be it only in the order of two different points, give two
/// different transcripts.
pub proof fn lemma_transcript_binds_points(
    sid: Seq<char>,
    pid: u32,
    points1: Seq<Seq<u8>>,
    points2: Seq<Seq<u8>>,
)
    requires
        forall|i: int| 0 <= i < points1.len() ==> is_point_encoding(#[trigger] points1[i]),
        forall|i: int| 0 <= i < points2.len() ==> is_point_encoding(#[trigger] points2[i]),
        points1 != points2,
    ensures
        transcript(sid, pid, points1) != transcript(sid, pid, points2),
{
    if transcript(sid, pid, points1) == transcript(sid, pid, points2) {
        let head = encode_utf8(sid) + u32_be_bytes(pid);
        lemma_same_prefix_cancels(head, points1.flatten(), points2.flatten());
        lemma_encodings_concatenate_uniquely(points1, points2);
    }
}

/// Order sensitivity of the transcript: exchanging two different points of
/// the list gives a different transcript.
pub proof fn lemma_transcript_is_order_sensitive(
    sid: Seq<char>,
    pid: u32,
    points: Seq<Seq<u8>>,
    i: int,
    j: int,
)
    requires
        forall|k: int| 0 <= k < points.len() ==> is_point_encoding(#[trigger] points[k]),
        0 <= i < j < points.len(),
        points[i] != points[j],
    ensures
        transcript(sid, pid, points) != transcript(
            sid,
            pid,
            points.update(i, points[j]).update(j, points[i]),
        ),
{
    let exchanged = points.update(i, points[j]).update(j, points[i]);
    assert(exchanged[i] == points[j]);
    lemma_transcript_binds_points(sid, pid, points, exchanged);
}

/// With no points, the transcript is the session id and the participant id
/// alone.
pub proof fn lemma_transcript_of_no_points(sid: Seq<char>, pid: u32)
    ensures
        transcript(sid, pid, Seq::empty()) == encode_utf8(sid) + u32_be_bytes(pid),
{
    assert(Seq::<Seq<u8>>::empty().flatten() =~= Seq::<u8>::empty());
    assert(transcript(sid, pid, Seq::empty()) =~= encode_utf8(sid) + u32_be_bytes(pid));
}

} // verus!
