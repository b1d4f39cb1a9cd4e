//! Hashing, signing and verifying overlay events with SHA-256 and Ed25519
//! (`sha2`, `ed25519-dalek`).
use vstd::prelude::*;
use vstd::utf8::encode_utf8;
use ed25519_dalek::{Signer, Verifier};
use crate::codec::{sha256, sha256_digest};
use crate::sim::types::ControlEvent;

verus! {

/// The Ed25519 verifying key (compressed point) of a 32-byte secret key.
pub uninterp spec fn ed25519_public_key(secret: Seq<u8>) -> Seq<u8>;

/// The Ed25519 signature (RFC 8032, deterministic) of a message under a
/// 32-byte secret key.
pub uninterp spec fn ed25519_signature(secret: Seq<u8>, message: Seq<u8>) -> Seq<u8>;

/// Whether `ed25519-dalek` decodes the verifying key and accepts the
/// signature of the message under it.
pub uninterp spec fn ed25519_verifies(public_key: Seq<u8>, message: Seq<u8>, signature: Seq<u8>) -> bool;

/// `SigningKey::from_bytes(secret).verifying_key().to_bytes()`: the verifying
/// key of a secret key.
#[verifier::external_body]
fn ed25519_verifying_key(secret: &[u8; 32]) -> (r: [u8; 32])
    ensures
        r@ == ed25519_public_key(secret@),
{
    ed25519_dalek::SigningKey::from_bytes(secret).verifying_key().to_bytes()
}

/// `SigningKey::from_bytes(secret).sign(message)`: the signature of a message.
/// As the crate documents, the key's verifying key accepts it.
#[verifier::external_body]
fn ed25519_sign(secret: &[u8; 32], message: &[u8]) -> (r: [u8; 64])
    ensures
        r@ == ed25519_signature(secret@, message@),
        ed25519_verifies(ed25519_public_key(secret@), message@, r@),
{
    ed25519_dalek::SigningKey::from_bytes(secret).sign(message).to_bytes()
}

/// `VerifyingKey::from_bytes` followed by `verify`: whether the key decodes
/// and accepts the signature of the message (a key that does not decode
/// accepts nothing).
#[verifier::external_body]
fn ed25519_verify(public_key: &[u8], message: &[u8], signature: &[u8]) -> (r: bool)
    requires
        public_key@.len() == 32,
        signature@.len() == 64,
    ensures
        r == ed25519_verifies(public_key@, message@, signature@),
{
    let pk: [u8; 32] = public_key.try_into().unwrap();
    let sig: [u8; 64] = signature.try_into().unwrap();
    match ed25519_dalek::VerifyingKey::from_bytes(&pk) {
        Ok(vk) => vk.verify(message, &ed25519_dalek::Signature::from_bytes(&sig)).is_ok(),
        Err(_) => false,
    }
}

/// An MTU's Ed25519 signing key, held as its 32 secret bytes.
#[derive(Debug, Clone)]
pub struct SigningKey {
    secret: [u8; 32],
}

impl SigningKey {
    /// The secret bytes of the key.
    pub closed spec fn secret(&self) -> Seq<u8> {
        self.secret@
    }

    /// The key with these secret bytes.
    pub fn from_bytes(secret: [u8; 32]) -> (r: Self)
        ensures
            r.secret() == secret@,
    {
        SigningKey { secret }
    }

    /// The secret bytes of the key.
    pub fn to_bytes(&self) -> (r: [u8; 32])
        ensures
            r@ == self.secret(),
    {
        self.secret
    }

    /// The verifying key that goes with this key.
    pub fn verifying_key(&self) -> (r: [u8; 32])
        ensures
            r@ == ed25519_public_key(self.secret()),
    {
        ed25519_verifying_key(&self.secret)
    }

    /// The signature of a message under this key.
    pub fn sign(&self, message: &[u8]) -> (r: [u8; 64])
        ensures
            r@ == ed25519_signature(self.secret(), message@),
            ed25519_verifies(ed25519_public_key(self.secret()), message@, r@),
    {
        ed25519_sign(&self.secret, message)
    }
}

/// The little-endian bytes of a `u64`.
pub open spec fn u64_le_bytes(n: u64) -> Seq<u8> {
    Seq::new(8, |i: int| ((n >> (8 * i) as u64) & 0xff) as u8)
}

/// The bytes that an event's hash covers: every field but the signature.
pub open spec fn hash_input(e: ControlEvent) -> Seq<u8> {
    encode_utf8(e.sender@) + u64_le_bytes(e.seq) + e.prev_hash@ + encode_utf8(e.payload@)
        + e.verifying_key@
}

/// The SHA-256 hash of an event over all fields except the signature.
pub open spec fn event_digest(e: ControlEvent) -> Seq<u8> {
    sha256(hash_input(e))
}

/// Whether an event's signature checks out: a 32-byte verifying key, a
/// 64-byte signature, and the key accepting the signature of the hash.
pub open spec fn event_verifies(e: ControlEvent) -> bool {
    e.verifying_key@.len() == 32 && e.signature@.len() == 64 && ed25519_verifies(
        e.verifying_key@,
        event_digest(e),
        e.signature@,
    )
}

/// Appends the bytes of `t` to `v`.
fn push_bytes(v: &mut Vec<u8>, t: &[u8])
    ensures
        final(v)@ == old(v)@ + t@,
{
    let mut i: usize = 0;
    let ghost start = v@;
    while i < t.len()
        invariant
            i <= t@.len(),
            v@ == start + t@.take(i as int),
        decreases t@.len() - i,
    {
        v.push(t[i]);
        assert(t@.take(i + 1) =~= t@.take(i as int).push(t@[i as int]));
        i = i + 1;
    }
    assert(t@.take(t@.len() as int) =~= t@);
}

/// SHA-256 over all fields except `signature`.
pub fn event_hash(e: &ControlEvent) -> (r: [u8; 32])
    ensures
        r@ == event_digest(*e),
{
    let mut input: Vec<u8> = Vec::new();
    push_bytes(&mut input, e.sender.as_str().as_bytes());
    let mut i: u64 = 0;
    let ghost start = input@;
    while i < 8
        invariant
            i <= 8,
            input@ == start + u64_le_bytes(e.seq).take(i as int),
        decreases 8 - i,
    {
        let b: u8 = ((e.seq >> (8 * i)) & 0xff) as u8;
        input.push(b);
        assert(u64_le_bytes(e.seq).take(i + 1) =~= u64_le_bytes(e.seq).take(i as int).push(b));
        i = i + 1;
    }
    assert(u64_le_bytes(e.seq).take(8) =~= u64_le_bytes(e.seq));
    push_bytes(&mut input, e.prev_hash.as_slice());
    push_bytes(&mut input, e.payload.as_str().as_bytes());
    push_bytes(&mut input, e.verifying_key.as_slice());
    assert(input@ =~= hash_input(*e));
    sha256_digest(input.as_slice())
}

/// Signs an event: its signature becomes the key's signature of its hash.
pub fn sign_event(e: &mut ControlEvent, key: &SigningKey)
    ensures
        final(e).sender == old(e).sender,
        final(e).seq == old(e).seq,
        final(e).prev_hash == old(e).prev_hash,
        final(e).payload == old(e).payload,
        final(e).verifying_key == old(e).verifying_key,
        final(e).signature@ == ed25519_signature(key.secret(), event_digest(*old(e))),
        final(e).signature@.len() == 64,
        ed25519_verifies(ed25519_public_key(key.secret()), event_digest(*old(e)), final(e).signature@),
{
    let hash = event_hash(e);
    let signature = key.sign(hash.as_slice());
    e.signature = vstd::slice::slice_to_vec(signature.as_slice());
}

/// Whether an event's signature checks out under the verifying key it carries.
pub fn verify_event(e: &ControlEvent) -> (r: bool)
    ensures
        r == event_verifies(*e),
{
    if e.verifying_key.len() != 32 {
        return false;
    }
    if e.signature.len() != 64 {
        return false;
    }
    let hash = event_hash(e);
    ed25519_verify(e.verifying_key.as_slice(), hash.as_slice(), e.signature.as_slice())
}

/// The hash of an event does not depend on its signature.
pub proof fn lemma_digest_ignores_signature(a: ControlEvent, b: ControlEvent)
    requires
        a.sender == b.sender,
        a.seq == b.seq,
        a.prev_hash == b.prev_hash,
        a.payload == b.payload,
        a.verifying_key == b.verifying_key,
    ensures
        event_digest(a) == event_digest(b),
{
}

/// The hash covers the verifying key: events that agree on every other
/// hashed field but carry different verifying keys hash different inputs.
pub proof fn lemma_hash_input_covers_verifying_key(a: ControlEvent, b: ControlEvent)
    requires
        a.sender@ == b.sender@,
        a.seq == b.seq,
        a.prev_hash@ == b.prev_hash@,
        a.payload@ == b.payload@,
        a.verifying_key@ != b.verifying_key@,
    ensures
        hash_input(a) != hash_input(b),
{
    let p = encode_utf8(a.sender@) + u64_le_bytes(a.seq) + a.prev_hash@ + encode_utf8(a.payload@);
    assert(hash_input(a) == p + a.verifying_key@);
    assert(hash_input(b) == p + b.verifying_key@);
    if hash_input(a) == hash_input(b) {
        crate::text::lemma_cancel_prefix(p, a.verifying_key@, b.verifying_key@);
    }
}

/// The hash covers the payload: events that agree on every other hashed
/// field but carry different payloads hash different inputs.
pub proof fn lemma_hash_input_covers_payload(a: ControlEvent, b: ControlEvent)
    requires
        a.sender@ == b.sender@,
        a.seq == b.seq,
        a.prev_hash@ == b.prev_hash@,
        a.payload@ != b.payload@,
        a.verifying_key@ == b.verifying_key@,
    ensures
        hash_input(a) != hash_input(b),
{
    let p = encode_utf8(a.sender@) + u64_le_bytes(a.seq) + a.prev_hash@;
    let k = a.verifying_key@;
    assert(hash_input(a) =~= p + (encode_utf8(a.payload@) + k));
    assert(hash_input(b) =~= p + (encode_utf8(b.payload@) + k));
    if hash_input(a) == hash_input(b) {
        crate::text::lemma_cancel_prefix(p, encode_utf8(a.payload@) + k, encode_utf8(b.payload@) + k);
        crate::text::lemma_cancel_suffix(encode_utf8(a.payload@), encode_utf8(b.payload@), k);
        crate::text::lemma_utf8_injective(a.payload@, b.payload@);
    }
}

/// The hash covers the sender: events that agree on every other hashed field
/// but name different senders hash different inputs.
pub proof fn lemma_hash_input_covers_sender(a: ControlEvent, b: ControlEvent)
    requires
        a.sender@ != b.sender@,
        a.seq == b.seq,
        a.prev_hash@ == b.prev_hash@,
        a.payload@ == b.payload@,
        a.verifying_key@ == b.verifying_key@,
    ensures
        hash_input(a) != hash_input(b),
{
    let t = u64_le_bytes(a.seq) + a.prev_hash@ + encode_utf8(a.payload@) + a.verifying_key@;
    assert(hash_input(a) =~= encode_utf8(a.sender@) + t);
    assert(hash_input(b) =~= encode_utf8(b.sender@) + t);
    if hash_input(a) == hash_input(b) {
        crate::text::lemma_cancel_suffix(encode_utf8(a.sender@), encode_utf8(b.sender@), t);
        crate::text::lemma_utf8_injective(a.sender@, b.sender@);
    }
}

/// The hash covers the sequence number and the previous hash: events that
/// agree on sender, payload and verifying key, and whose previous hashes are
/// 32 bytes long, but differ in sequence number or previous hash, hash
/// different inputs.
pub proof fn lemma_hash_input_covers_seq_and_prev_hash(a: ControlEvent, b: ControlEvent)
    requires
        a.sender@ == b.sender@,
        a.seq != b.seq || a.prev_hash@ != b.prev_hash@,
        a.prev_hash@.len() == 32,
        b.prev_hash@.len() == 32,
        a.payload@ == b.payload@,
        a.verifying_key@ == b.verifying_key@,
    ensures
        hash_input(a) != hash_input(b),
{
    let p = encode_utf8(a.sender@);
    let t = encode_utf8(a.payload@) + a.verifying_key@;
    let ma = u64_le_bytes(a.seq) + a.prev_hash@;
    let mb = u64_le_bytes(b.seq) + b.prev_hash@;
    assert(hash_input(a) =~= p + (ma + t));
    assert(hash_input(b) =~= p + (mb + t));
    if hash_input(a) == hash_input(b) {
        crate::text::lemma_cancel_prefix(p, ma + t, mb + t);
        crate::text::lemma_cancel_suffix(ma, mb, t);
        assert(a.prev_hash@ =~= ma.subrange(8, 40));
        assert(b.prev_hash@ =~= mb.subrange(8, 40));
        let x = a.seq;
        let y = b.seq;
        assert(u64_le_bytes(x) =~= ma.subrange(0, 8));
        assert(u64_le_bytes(y) =~= mb.subrange(0, 8));
        assert(u64_le_bytes(x)[0] == u64_le_bytes(y)[0]);
        assert(u64_le_bytes(x)[1] == u64_le_bytes(y)[1]);
        assert(u64_le_bytes(x)[2] == u64_le_bytes(y)[2]);
        assert(u64_le_bytes(x)[3] == u64_le_bytes(y)[3]);
        assert(u64_le_bytes(x)[4] == u64_le_bytes(y)[4]);
        assert(u64_le_bytes(x)[5] == u64_le_bytes(y)[5]);
        assert(u64_le_bytes(x)[6] == u64_le_bytes(y)[6]);
        assert(u64_le_bytes(x)[7] == u64_le_bytes(y)[7]);
        assert(x == y) by (bit_vector)
            requires
                ((x >> 0u64) & 0xff) as u8 == ((y >> 0u64) & 0xff) as u8,
                ((x >> 8u64) & 0xff) as u8 == ((y >> 8u64) & 0xff) as u8,
                ((x >> 16u64) & 0xff) as u8 == ((y >> 16u64) & 0xff) as u8,
                ((x >> 24u64) & 0xff) as u8 == ((y >> 24u64) & 0xff) as u8,
                ((x >> 32u64) & 0xff) as u8 == ((y >> 32u64) & 0xff) as u8,
                ((x >> 40u64) & 0xff) as u8 == ((y >> 40u64) & 0xff) as u8,
                ((x >> 48u64) & 0xff) as u8 == ((y >> 48u64) & 0xff) as u8,
                ((x >> 56u64) & 0xff) as u8 == ((y >> 56u64) & 0xff) as u8,
        ;
    }
}

} // verus!
