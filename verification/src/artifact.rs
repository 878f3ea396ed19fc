//! Attestation and secrets artifacts and their stable binary encoding.
//!
//! A successful session ends with a pair of artifacts: the attestation,
//! the shareable proof, and the secrets, the private disclosure material.
//! Both reference the session they came from through its identifier and
//! negotiated bounds.  The encoding is a tagged, length-prefixed byte
//! format so that a separate verifier process can read the files back.

use vstd::prelude::*;
use vstd::bytes::{spec_u64_from_le_bytes, spec_u64_to_le_bytes, u64_from_le_bytes, u64_to_le_bytes};
use vstd::bytes::lemma_auto_spec_u64_to_from_le_bytes;
use vstd::slice::slice_subrange;

verus! {

/// First byte of an encoded attestation.
pub const ATTESTATION_TAG: u8 = 1;

/// First byte of an encoded secrets artifact.
pub const SECRETS_TAG: u8 = 2;

/// The shareable proof artifact of one session: the engine's signed
/// payload together with the provenance it is claimed for.
pub struct Attestation {
    pub session_id: Vec<u8>,
    pub max_sent: u64,
    pub max_recv: u64,
    pub body: Vec<u8>,
}

/// The private disclosure material of one session: the transcript the
/// commitments refer to and the engine's secret payload.
pub struct Secrets {
    pub session_id: Vec<u8>,
    pub sent: Vec<u8>,
    pub recv: Vec<u8>,
    pub body: Vec<u8>,
}

/// A byte string under its 64-bit little-endian length.
pub open spec fn len_prefixed(s: Seq<u8>) -> Seq<u8> {
    spec_u64_to_le_bytes(s.len() as u64) + s
}

/// The encoded form of an attestation.
pub open spec fn spec_encode_attestation(
    sid: Seq<u8>,
    max_sent: u64,
    max_recv: u64,
    body: Seq<u8>,
) -> Seq<u8> {
    seq![ATTESTATION_TAG] + len_prefixed(sid) + spec_u64_to_le_bytes(max_sent)
        + spec_u64_to_le_bytes(max_recv) + len_prefixed(body)
}

/// The encoded form of a secrets artifact.
pub open spec fn spec_encode_secrets(
    sid: Seq<u8>,
    sent: Seq<u8>,
    recv: Seq<u8>,
    body: Seq<u8>,
) -> Seq<u8> {
    seq![SECRETS_TAG] + len_prefixed(sid) + len_prefixed(sent) + len_prefixed(recv) + len_prefixed(
        body,
    )
}

/// The 64-bit little-endian number at offset `i` of `b`.
pub open spec fn read_u64(b: Seq<u8>, i: int) -> u64 {
    spec_u64_from_le_bytes(b.subrange(i, i + 8))
}

/// What decoding an attestation yields: the session identifier, the two
/// bounds and the payload, provided the bytes are exactly one well-formed
/// encoding with nothing trailing.
pub open spec fn spec_decode_attestation(b: Seq<u8>) -> Option<(Seq<u8>, u64, u64, Seq<u8>)> {
    if b.len() < 9 || b[0] != ATTESTATION_TAG {
        None
    } else {
        let n1 = read_u64(b, 1) as int;
        if b.len() < 9 + n1 + 24 {
            None
        } else {
            let sid = b.subrange(9, 9 + n1);
            let max_sent = read_u64(b, 9 + n1);
            let max_recv = read_u64(b, 9 + n1 + 8);
            let n2 = read_u64(b, 9 + n1 + 16) as int;
            if b.len() != 9 + n1 + 24 + n2 {
                None
            } else {
                Some((sid, max_sent, max_recv, b.subrange(9 + n1 + 24, b.len() as int)))
            }
        }
    }
}

/// What decoding a secrets artifact yields.
pub open spec fn spec_decode_secrets(b: Seq<u8>) -> Option<(Seq<u8>, Seq<u8>, Seq<u8>, Seq<u8>)> {
    if b.len() < 9 || b[0] != SECRETS_TAG {
        None
    } else {
        let n1 = read_u64(b, 1) as int;
        if b.len() < 9 + n1 + 8 {
            None
        } else {
            let sid = b.subrange(9, 9 + n1);
            let n2 = read_u64(b, 9 + n1) as int;
            if b.len() < 9 + n1 + 8 + n2 + 8 {
                None
            } else {
                let sent = b.subrange(9 + n1 + 8, 9 + n1 + 8 + n2);
                let n3 = read_u64(b, 9 + n1 + 8 + n2) as int;
                if b.len() < 9 + n1 + 8 + n2 + 8 + n3 + 8 {
                    None
                } else {
                    let recv = b.subrange(9 + n1 + 8 + n2 + 8, 9 + n1 + 8 + n2 + 8 + n3);
                    let n4 = read_u64(b, 9 + n1 + 8 + n2 + 8 + n3) as int;
                    if b.len() != 9 + n1 + 8 + n2 + 8 + n3 + 8 + n4 {
                        None
                    } else {
                        Some((sid, sent, recv, b.subrange(9 + n1 + 8 + n2 + 8 + n3 + 8, b.len() as int)))
                    }
                }
            }
        }
    }
}

/// Appends the bytes of `s` to `out`.
fn push_bytes(out: &mut Vec<u8>, s: &[u8])
    ensures
        final(out)@ == old(out)@ + s@,
{
    let mut j: usize = 0;
    while j < s.len()
        invariant
            j <= s@.len(),
            out@ == old(out)@ + s@.take(j as int),
        decreases s@.len() - j,
    {
        out.push(s[j]);
        j = j + 1;
        assert(s@.take(j as int) =~= s@.take(j - 1) + seq![s@[j - 1]]);
        assert(out@ =~= old(out)@ + s@.take(j as int));
    }
    assert(s@.take(s@.len() as int) =~= s@);
}

/// Appends a 64-bit number in little-endian order to `out`.
fn push_u64(out: &mut Vec<u8>, v: u64)
    ensures
        final(out)@ == old(out)@ + spec_u64_to_le_bytes(v),
{
    let bytes = u64_to_le_bytes(v);
    push_bytes(out, bytes.as_slice());
}

/// Encodes an attestation for persistence.
pub fn encode_attestation(a: &Attestation) -> (r: Vec<u8>)
    ensures
        r@ == spec_encode_attestation(a.session_id@, a.max_sent, a.max_recv, a.body@),
{
    let mut out: Vec<u8> = Vec::new();
    out.push(ATTESTATION_TAG);
    push_u64(&mut out, a.session_id.len() as u64);
    push_bytes(&mut out, a.session_id.as_slice());
    push_u64(&mut out, a.max_sent);
    push_u64(&mut out, a.max_recv);
    push_u64(&mut out, a.body.len() as u64);
    push_bytes(&mut out, a.body.as_slice());
    assert(out@ =~= spec_encode_attestation(a.session_id@, a.max_sent, a.max_recv, a.body@));
    out
}

/// Encodes a secrets artifact for persistence.
pub fn encode_secrets(s: &Secrets) -> (r: Vec<u8>)
    ensures
        r@ == spec_encode_secrets(s.session_id@, s.sent@, s.recv@, s.body@),
{
    let mut out: Vec<u8> = Vec::new();
    out.push(SECRETS_TAG);
    push_u64(&mut out, s.session_id.len() as u64);
    push_bytes(&mut out, s.session_id.as_slice());
    push_u64(&mut out, s.sent.len() as u64);
    push_bytes(&mut out, s.sent.as_slice());
    push_u64(&mut out, s.recv.len() as u64);
    push_bytes(&mut out, s.recv.as_slice());
    push_u64(&mut out, s.body.len() as u64);
    push_bytes(&mut out, s.body.as_slice());
    assert(out@ =~= spec_encode_secrets(s.session_id@, s.sent@, s.recv@, s.body@));
    out
}

/// Copies `b[i..j]` into a fresh vector.
fn copy_range(b: &[u8], i: usize, j: usize) -> (r: Vec<u8>)
    requires
        i <= j <= b@.len(),
    ensures
        r@ == b@.subrange(i as int, j as int),
{
    let mut out: Vec<u8> = Vec::new();
    let mut k: usize = i;
    while k < j
        invariant
            i <= k <= j <= b@.len(),
            out@ == b@.subrange(i as int, k as int),
        decreases j - k,
    {
        out.push(b[k]);
        k = k + 1;
        assert(b@.subrange(i as int, k as int) =~= b@.subrange(i as int, k - 1) + seq![
            b@[k - 1],
        ]);
    }
    out
}

/// Reads the 64-bit little-endian number at offset `i`.
fn read_u64_at(b: &[u8], i: usize) -> (r: u64)
    requires
        i + 8 <= b@.len(),
    ensures
        r == read_u64(b@, i as int),
{
    let n = b.len();
    assert(i + 8 <= n);
    let s = slice_subrange(b, i, i + 8);
    u64_from_le_bytes(s)
}

/// Decodes an attestation; yields the artifact exactly when the bytes
/// are one well-formed encoding.
pub fn decode_attestation(b: &[u8]) -> (r: Option<Attestation>)
    ensures
        r is Some <==> spec_decode_attestation(b@) is Some,
        r matches Some(a) ==> spec_decode_attestation(b@) == Some(
            (a.session_id@, a.max_sent, a.max_recv, a.body@),
        ),
{
    if b.len() < 9 || b[0] != ATTESTATION_TAG {
        return None;
    }
    let n1 = read_u64_at(b, 1);
    let avail: u64 = (b.len() - 9) as u64;
    if n1 > avail || avail - n1 < 24 {
        return None;
    }
    let n1u = n1 as usize;
    let sid_end = 9 + n1u;
    let sid = copy_range(b, 9, sid_end);
    let max_sent = read_u64_at(b, sid_end);
    let max_recv = read_u64_at(b, sid_end + 8);
    let n2 = read_u64_at(b, sid_end + 16);
    let rest: u64 = (b.len() - sid_end - 24) as u64;
    if n2 != rest {
        return None;
    }
    let body = copy_range(b, sid_end + 24, b.len());
    Some(Attestation { session_id: sid, max_sent, max_recv, body })
}

/// Decodes a secrets artifact; yields the artifact exactly when the
/// bytes are one well-formed encoding.
pub fn decode_secrets(b: &[u8]) -> (r: Option<Secrets>)
    ensures
        r is Some <==> spec_decode_secrets(b@) is Some,
        r matches Some(s) ==> spec_decode_secrets(b@) == Some(
            (s.session_id@, s.sent@, s.recv@, s.body@),
        ),
{
    if b.len() < 9 || b[0] != SECRETS_TAG {
        return None;
    }
    let n1 = read_u64_at(b, 1);
    let avail1: u64 = (b.len() - 9) as u64;
    if n1 > avail1 || avail1 - n1 < 8 {
        return None;
    }
    let sid_end = 9 + n1 as usize;
    let sid = copy_range(b, 9, sid_end);
    let n2 = read_u64_at(b, sid_end);
    let avail2: u64 = (b.len() - sid_end - 8) as u64;
    if n2 > avail2 || avail2 - n2 < 8 {
        return None;
    }
    let sent_end = sid_end + 8 + n2 as usize;
    let sent = copy_range(b, sid_end + 8, sent_end);
    let n3 = read_u64_at(b, sent_end);
    let avail3: u64 = (b.len() - sent_end - 8) as u64;
    if n3 > avail3 || avail3 - n3 < 8 {
        return None;
    }
    let recv_end = sent_end + 8 + n3 as usize;
    let recv = copy_range(b, sent_end + 8, recv_end);
    let n4 = read_u64_at(b, recv_end);
    let rest: u64 = (b.len() - recv_end - 8) as u64;
    if n4 != rest {
        return None;
    }
    let body = copy_range(b, recv_end + 8, b.len());
    Some(Secrets { session_id: sid, sent, recv, body })
}

/// Law: decoding an encoded attestation yields the original fields.
pub proof fn lemma_attestation_round_trip(sid: Seq<u8>, max_sent: u64, max_recv: u64, body: Seq<u8>)
    requires
        sid.len() <= u64::MAX,
        body.len() <= u64::MAX,
    ensures
        spec_decode_attestation(spec_encode_attestation(sid, max_sent, max_recv, body)) == Some(
            (sid, max_sent, max_recv, body),
        ),
{
    lemma_auto_spec_u64_to_from_le_bytes();
    let e = spec_encode_attestation(sid, max_sent, max_recv, body);
    let n = sid.len() as int;
    let m = body.len() as int;
    assert(e.len() == 9 + n + 24 + m);
    assert(e[0] == ATTESTATION_TAG);
    assert(e.subrange(1, 9) =~= spec_u64_to_le_bytes(sid.len() as u64));
    assert(read_u64(e, 1) as int == n);
    assert(e.subrange(9, 9 + n) =~= sid);
    assert(e.subrange(9 + n, 9 + n + 8) =~= spec_u64_to_le_bytes(max_sent));
    assert(e.subrange(9 + n + 8, 9 + n + 16) =~= spec_u64_to_le_bytes(max_recv));
    assert(e.subrange(9 + n + 16, 9 + n + 24) =~= spec_u64_to_le_bytes(body.len() as u64));
    assert(read_u64(e, 9 + n + 16) as int == m);
    assert(e.subrange(9 + n + 24, e.len() as int) =~= body);
}

/// Law: decoding an encoded secrets artifact yields the original fields.
pub proof fn lemma_secrets_round_trip(sid: Seq<u8>, sent: Seq<u8>, recv: Seq<u8>, body: Seq<u8>)
    requires
        sid.len() <= u64::MAX,
        sent.len() <= u64::MAX,
        recv.len() <= u64::MAX,
        body.len() <= u64::MAX,
    ensures
        spec_decode_secrets(spec_encode_secrets(sid, sent, recv, body)) == Some(
            (sid, sent, recv, body),
        ),
{
    lemma_auto_spec_u64_to_from_le_bytes();
    let e = spec_encode_secrets(sid, sent, recv, body);
    let n1 = sid.len() as int;
    let n2 = sent.len() as int;
    let n3 = recv.len() as int;
    let n4 = body.len() as int;
    assert(e.len() == 9 + n1 + 8 + n2 + 8 + n3 + 8 + n4);
    assert(e[0] == SECRETS_TAG);
    assert(e.subrange(1, 9) =~= spec_u64_to_le_bytes(sid.len() as u64));
    assert(read_u64(e, 1) as int == n1);
    assert(e.subrange(9, 9 + n1) =~= sid);
    assert(e.subrange(9 + n1, 9 + n1 + 8) =~= spec_u64_to_le_bytes(sent.len() as u64));
    assert(read_u64(e, 9 + n1) as int == n2);
    assert(e.subrange(9 + n1 + 8, 9 + n1 + 8 + n2) =~= sent);
    assert(e.subrange(9 + n1 + 8 + n2, 9 + n1 + 8 + n2 + 8) =~= spec_u64_to_le_bytes(
        recv.len() as u64,
    ));
    assert(read_u64(e, 9 + n1 + 8 + n2) as int == n3);
    assert(e.subrange(9 + n1 + 8 + n2 + 8, 9 + n1 + 8 + n2 + 8 + n3) =~= recv);
    assert(e.subrange(9 + n1 + 8 + n2 + 8 + n3, 9 + n1 + 8 + n2 + 8 + n3 + 8)
        =~= spec_u64_to_le_bytes(body.len() as u64));
    assert(read_u64(e, 9 + n1 + 8 + n2 + 8 + n3) as int == n4);
    assert(e.subrange(9 + n1 + 8 + n2 + 8 + n3 + 8, e.len() as int) =~= body);
}

} // verus!
