use vstd::prelude::*;
use sha2::{Digest, Sha256};
use vstd::string::StringSliceAdditionalSpecFns;
use crate::types::ResolveError;

verus! {

/// Bytes of an enclave measurement.
pub const MEASUREMENT_LEN: usize = 32;

/// Bytes of a signature.
pub const SIGNATURE_LEN: usize = 64;

/// Bytes of an attestation document: measurement, timestamp, signature.
pub const ATTESTATION_LEN: usize = 104;

/// The SHA-256 digest of a byte sequence.
pub uninterp spec fn sha256_of(data: Seq<u8>) -> Seq<u8>;

/// The lowest `n` bytes of `v`, least significant first.
pub open spec fn le_bytes_n(v: nat, n: nat) -> Seq<u8>
    decreases n,
{
    if n == 0 {
        Seq::empty()
    } else {
        seq![(v % 256) as u8] + le_bytes_n(v / 256, (n - 1) as nat)
    }
}

/// `le_bytes_n` has `n` bytes.
pub proof fn lemma_le_bytes_len(v: nat, n: nat)
    ensures
        le_bytes_n(v, n).len() == n,
    decreases n,
{
    if n > 0 {
        lemma_le_bytes_len(v / 256, (n - 1) as nat);
    }
}

/// The eight little-endian bytes of a timestamp.
pub open spec fn le_bytes(v: u64) -> Seq<u8> {
    le_bytes_n(v as nat, 8)
}

/// The signed payload: the claim identifier's bytes, one verdict byte, and
/// the timestamp's eight little-endian bytes.
pub open spec fn payload_of(claim_id: Seq<u8>, verdict: bool, timestamp_ms: u64) -> Seq<u8> {
    claim_id + seq![if verdict { 1u8 } else { 0u8 }] + le_bytes(timestamp_ms)
}

/// The document: measurement, timestamp, signature, with no other framing.
pub open spec fn document_of(measurement: Seq<u8>, timestamp_ms: u64, signature: Seq<u8>) -> Seq<
    u8,
> {
    measurement + le_bytes(timestamp_ms) + signature
}

/// The lowercase hexadecimal digit of a nibble.
pub open spec fn hex_digit(n: int) -> char {
    if n < 10 {
        ((n + 48) as u8) as char
    } else {
        ((n + 87) as u8) as char
    }
}

/// Lowercase hexadecimal text of a byte sequence, two digits per byte, high
/// nibble first.
pub open spec fn hex_of(b: Seq<u8>) -> Seq<char>
    decreases b.len(),
{
    if b.len() == 0 {
        Seq::empty()
    } else {
        hex_of(b.drop_last()) + seq![hex_digit(b.last() as int / 16), hex_digit(b.last() as int % 16)]
    }
}

/// Relies on `sha2::Sha256::digest`: the 32-byte SHA-256 digest of the data.
#[verifier::external_body]
fn sha256(data: &Vec<u8>) -> (r: Vec<u8>)
    ensures
        r@ == sha256_of(data@),
        r@.len() == 32,
{
    Sha256::digest(data.as_slice()).to_vec()
}

/// Relies on `hex::encode`: two lowercase hexadecimal digits per byte.
#[verifier::external_body]
fn hex_encode(b: &[u8]) -> (r: String)
    ensures
        r@ == hex_of(b@),
{
    hex::encode(b)
}

/// The eight little-endian bytes of a timestamp.
pub fn timestamp_bytes(v: u64) -> (r: Vec<u8>)
    ensures
        r@ == le_bytes(v),
{
    let mut out: Vec<u8> = Vec::new();
    let mut rest: u64 = v;
    let mut i: usize = 0;
    while i < 8
        invariant
            i <= 8,
            out@.len() == i,
            out@ + le_bytes_n(rest as nat, (8 - i) as nat) == le_bytes(v),
        decreases 8 - i,
    {
        let byte = (rest % 256) as u8;
        proof {
            let n = (8 - i) as nat;
            assert(le_bytes_n(rest as nat, n) == seq![byte] + le_bytes_n(
                (rest / 256) as nat,
                (n - 1) as nat,
            ));
            assert(out@.push(byte) + le_bytes_n((rest / 256) as nat, (n - 1) as nat) =~= out@ + (
            seq![byte] + le_bytes_n((rest / 256) as nat, (n - 1) as nat)));
        }
        out.push(byte);
        rest = rest / 256;
        i += 1;
    }
    assert(le_bytes_n(rest as nat, 0) =~= Seq::<u8>::empty());
    assert(out@ + Seq::<u8>::empty() =~= out@);
    out
}

/// The payload that the enclave signs for a verdict on a claim.
pub fn signing_payload(claim_id: &str, verdict: bool, timestamp_ms: u64) -> (r: Vec<u8>)
    ensures
        r@ == payload_of(claim_id.spec_bytes(), verdict, timestamp_ms),
{
    let mut payload = vstd::slice::slice_to_vec(claim_id.as_bytes());
    payload.push(if verdict { 1u8 } else { 0u8 });
    let mut ts = timestamp_bytes(timestamp_ms);
    payload.append(&mut ts);
    payload
}

/// The SHA-256 digest of the signed payload: what the enclave's key signs.
pub fn signing_digest(claim_id: &str, verdict: bool, timestamp_ms: u64) -> (r: Vec<u8>)
    ensures
        r@ == sha256_of(payload_of(claim_id.spec_bytes(), verdict, timestamp_ms)),
        r@.len() == 32,
{
    let payload = signing_payload(claim_id, verdict, timestamp_ms);
    sha256(&payload)
}

/// Builds the attestation document `measurement || timestamp || signature`.
/// The signature is the enclave key's signature over `signing_digest` of the
/// claim identifier, the verdict and `timestamp_ms`. A measurement that is not
/// 32 bytes, or a signature that is not 64 bytes, is an error.
pub fn generate_attestation(measurement: &[u8], timestamp_ms: u64, signature: &[u8]) -> (r:
    Result<Vec<u8>, ResolveError>)
    ensures
        measurement@.len() == MEASUREMENT_LEN && signature@.len() == SIGNATURE_LEN <==> r.is_ok(),
        r.is_ok() ==> r->Ok_0@ == document_of(measurement@, timestamp_ms, signature@),
        r.is_ok() ==> r->Ok_0@.len() == ATTESTATION_LEN,
        r.is_err() ==> r == Err::<Vec<u8>, ResolveError>(ResolveError::MalformedAttestation),
{
    if measurement.len() != MEASUREMENT_LEN || signature.len() != SIGNATURE_LEN {
        return Err(ResolveError::MalformedAttestation);
    }
    proof {
        lemma_le_bytes_len(timestamp_ms as nat, 8);
    }
    let mut doc = vstd::slice::slice_to_vec(measurement);
    let mut ts = timestamp_bytes(timestamp_ms);
    let mut sig = vstd::slice::slice_to_vec(signature);
    doc.append(&mut ts);
    doc.append(&mut sig);
    Ok(doc)
}

/// The development measurement: 32 zero bytes. Not the identity of any real
/// enclave.
pub fn get_mock_measurement() -> (r: Vec<u8>)
    ensures
        r@ == Seq::new(32, |i: int| 0u8),
{
    let mut m: Vec<u8> = Vec::new();
    let mut i: usize = 0;
    while i < 32
        invariant
            i <= 32,
            m@ == Seq::new(i as nat, |j: int| 0u8),
        decreases 32 - i,
    {
        m.push(0u8);
        i += 1;
        assert(m@ =~= Seq::new(i as nat, |j: int| 0u8));
    }
    m
}

/// The development signature: the 32-byte digest followed by 32 zero bytes.
/// It verifies under no key, and only stands in where no enclave key exists.
pub fn mock_sign(hash: &[u8]) -> (r: Vec<u8>)
    requires
        hash@.len() == 32,
    ensures
        r@ == hash@ + Seq::new(32, |i: int| 0u8),
        r@.len() == SIGNATURE_LEN,
{
    let mut sig = vstd::slice::slice_to_vec(hash);
    let mut zeros = get_mock_measurement();
    sig.append(&mut zeros);
    sig
}

/// Hexadecimal text of an enclave measurement.
pub fn measurement_hex(measurement: &[u8]) -> (r: String)
    ensures
        r@ == hex_of(measurement@),
{
    hex_encode(measurement)
}

/// Hexadecimal text of the development measurement.
pub fn get_enclave_measurement() -> (r: String)
    ensures
        r@ == hex_of(Seq::new(32, |i: int| 0u8)),
{
    let m = get_mock_measurement();
    measurement_hex(m.as_slice())
}

/// `256` to the power `n`.
pub open spec fn pow256(n: nat) -> nat
    decreases n,
{
    if n == 0 {
        1
    } else {
        256 * pow256((n - 1) as nat)
    }
}

/// Below `256^n`, the `n` little-endian bytes determine the number.
pub proof fn lemma_le_bytes_injective(a: nat, b: nat, n: nat)
    requires
        a < pow256(n),
        b < pow256(n),
        le_bytes_n(a, n) == le_bytes_n(b, n),
    ensures
        a == b,
    decreases n,
{
    if n > 0 {
        let p = pow256((n - 1) as nat);
        let sa = le_bytes_n(a, n);
        let sb = le_bytes_n(b, n);
        assert(sa[0] == sb[0]);
        assert(le_bytes_n(a / 256, (n - 1) as nat) =~= sa.skip(1));
        assert(le_bytes_n(b / 256, (n - 1) as nat) =~= sb.skip(1));
        assert(a / 256 < p) by (nonlinear_arith)
            requires
                a < 256 * p,
        ;
        assert(b / 256 < p) by (nonlinear_arith)
            requires
                b < 256 * p,
        ;
        lemma_le_bytes_injective(a / 256, b / 256, (n - 1) as nat);
    }
}

/// The signed payload determines the claim identifier, the verdict and the
/// timestamp: changing any one of them changes the bytes that are hashed.
pub proof fn lemma_payload_injective(
    claim_id1: Seq<u8>,
    verdict1: bool,
    timestamp1: u64,
    claim_id2: Seq<u8>,
    verdict2: bool,
    timestamp2: u64,
)
    requires
        payload_of(claim_id1, verdict1, timestamp1) == payload_of(claim_id2, verdict2, timestamp2),
    ensures
        claim_id1 == claim_id2,
        verdict1 == verdict2,
        timestamp1 == timestamp2,
{
    let p1 = payload_of(claim_id1, verdict1, timestamp1);
    let p2 = payload_of(claim_id2, verdict2, timestamp2);
    lemma_le_bytes_len(timestamp1 as nat, 8);
    lemma_le_bytes_len(timestamp2 as nat, 8);
    let n = claim_id1.len() as int;
    assert(p1.len() == claim_id1.len() + 9);
    assert(p2.len() == claim_id2.len() + 9);
    assert(claim_id2.len() == n);
    assert(claim_id1 =~= p1.take(n));
    assert(claim_id2 =~= p2.take(n));
    assert(p1[n] == p2[n]);
    assert(le_bytes(timestamp1) =~= p1.skip(n + 1));
    assert(le_bytes(timestamp2) =~= p2.skip(n + 1));
    assert(pow256(8) == 0x1_0000_0000_0000_0000) by {
        reveal_with_fuel(pow256, 9);
    }
    lemma_le_bytes_injective(timestamp1 as nat, timestamp2 as nat, 8);
}

} // verus!
