//! Content-addressed identities: a domain-separated, length-framed BLAKE3
//! digest of a record's JSON text, written in lowercase hexadecimal after a
//! short kind prefix.

use vstd::prelude::*;
use vstd::string::StringSliceAdditionalSpecFns;
use crate::text::{is_lower_digest_id, is_lower_hex};

verus! {

/// The lowercase hexadecimal BLAKE3 digest of a byte sequence.
pub uninterp spec fn blake3_hex(input: Seq<u8>) -> Seq<char>;

/// Trusted: calls `blake3::hash` and `Hash::to_hex`. The BLAKE3 crate
/// documents `hash` as its default 32-byte hash function and `to_hex` as the
/// lowercase hexadecimal encoding of those 32 bytes, so the text is 64
/// lowercase hexadecimal digits and depends on the input bytes alone.
#[verifier::external_body]
fn blake3_hex_digest(input: &[u8]) -> (r: String)
    ensures
        r@ == blake3_hex(input@),
        r@.len() == 64,
        forall|i: int| 0 <= i < 64 ==> is_lower_hex(#[trigger] r@[i]),
{
    blake3::hash(input).to_hex().to_string()
}

/// Little-endian bytes of `n`, `k` of them.
pub open spec fn le_bytes(n: nat, k: nat) -> Seq<u8>
    decreases k,
{
    if k == 0 {
        Seq::empty()
    } else {
        seq![(n % 256) as u8] + le_bytes(n / 256, (k - 1) as nat)
    }
}

/// The framed input of an identity digest: each part preceded by its
/// length as eight little-endian bytes.
pub open spec fn id_frame(domain: Seq<u8>, payload: Seq<u8>) -> Seq<u8> {
    le_bytes(domain.len(), 8) + domain + le_bytes(payload.len(), 8) + payload
}

/// The identity of `payload` in `domain`, written after `prefix`.
pub open spec fn derived_id(domain: Seq<char>, prefix: Seq<char>, payload: Seq<char>) -> Seq<
    char,
> {
    prefix + blake3_hex(
        id_frame(vstd::utf8::encode_utf8(domain), vstd::utf8::encode_utf8(payload)),
    )
}

fn push_le_u64(v: &mut Vec<u8>, n: u64)
    ensures
        final(v)@ == old(v)@ + le_bytes(n as nat, 8),
{
    let ghost start = v@;
    let mut x = n;
    let mut i: usize = 0;
    while i < 8
        invariant
            i <= 8,
            v@ + le_bytes(x as nat, (8 - i) as nat) == start + le_bytes(n as nat, 8),
        decreases 8 - i,
    {
        let ghost before = v@;
        let b = (x % 256) as u8;
        v.push(b);
        proof {
            assert(le_bytes(x as nat, (8 - i) as nat) == seq![b] + le_bytes(
                (x / 256) as nat,
                (8 - i - 1) as nat,
            ));
            assert(v@ + le_bytes((x / 256) as nat, (8 - i - 1) as nat) =~= before + le_bytes(
                x as nat,
                (8 - i) as nat,
            ));
        }
        x = x / 256;
        i = i + 1;
    }
    assert(le_bytes(x as nat, 0) =~= Seq::<u8>::empty());
    assert(v@ =~= start + le_bytes(n as nat, 8));
}

fn push_bytes(v: &mut Vec<u8>, bytes: &[u8])
    ensures
        final(v)@ == old(v)@ + bytes@,
{
    let ghost start = v@;
    let n = bytes.len();
    let mut i: usize = 0;
    while i < n
        invariant
            n == bytes@.len(),
            i <= n,
            v@ == start + bytes@.subrange(0, i as int),
        decreases n - i,
    {
        v.push(bytes[i]);
        assert(v@ =~= start + bytes@.subrange(0, i as int + 1));
        i = i + 1;
    }
    assert(bytes@.subrange(0, n as int) =~= bytes@);
}

/// Derives the identity of `payload` in `domain`: `prefix` followed by the
/// BLAKE3 digest of the framed UTF-8 bytes of domain and payload.
pub fn derive_id(domain: &str, prefix: &str, payload: &str) -> (r: String)
    ensures
        r@ == derived_id(domain@, prefix@, payload@),
        is_lower_digest_id(r@, prefix@),
{
    let d = domain.as_bytes();
    let p = payload.as_bytes();
    let mut frame: Vec<u8> = Vec::new();
    push_le_u64(&mut frame, d.len() as u64);
    push_bytes(&mut frame, d);
    push_le_u64(&mut frame, p.len() as u64);
    push_bytes(&mut frame, p);
    assert(frame@ =~= id_frame(domain.spec_bytes(), payload.spec_bytes()));
    let hex = blake3_hex_digest(frame.as_slice());
    let mut r = String::new();
    r.append(prefix);
    r.append(hex.as_str());
    proof {
        assert(r@ =~= prefix@ + hex@);
        assert(r@.subrange(0, prefix@.len() as int) =~= prefix@);
        assert forall|i: int| prefix@.len() <= i < r@.len() implies is_lower_hex(#[trigger] r@[i]) by {
            assert(r@[i] == hex@[i - prefix@.len()]);
        }
    }
    r
}


/// The identity of `payload` without a domain: `prefix` followed by the
/// BLAKE3 digest of the payload's UTF-8 bytes.
pub open spec fn plain_digest_id(prefix: Seq<char>, payload: Seq<char>) -> Seq<char> {
    prefix + blake3_hex(vstd::utf8::encode_utf8(payload))
}

/// Derives the domain-free identity of `payload` after `prefix`.
pub fn derive_plain_id(prefix: &str, payload: &str) -> (r: String)
    ensures
        r@ == plain_digest_id(prefix@, payload@),
        is_lower_digest_id(r@, prefix@),
{
    let hex = blake3_hex_digest(payload.as_bytes());
    let mut r = String::new();
    r.append(prefix);
    r.append(hex.as_str());
    proof {
        assert(r@ =~= prefix@ + hex@);
        assert(r@.subrange(0, prefix@.len() as int) =~= prefix@);
        assert forall|i: int| prefix@.len() <= i < r@.len() implies is_lower_hex(#[trigger] r@[i]) by {
            assert(r@[i] == hex@[i - prefix@.len()]);
        }
    }
    r
}

} // verus!
