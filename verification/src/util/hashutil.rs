//! Tagged hashes: SHA-256 applied twice to a framed tag and a payload.

use crate::util::netstring::{append_bytes, lemma_netstring_prefix_free, netstring, netstring_spec};
use vstd::prelude::*;

verus! {

/// The number of bytes of a full digest.
pub const HASH_SIZE: usize = 32;

/// The number of bytes of a write key.
pub const KEYLEN: usize = 16;

/// The SHA-256 digest of `data`.
pub uninterp spec fn sha256_digest(data: Seq<u8>) -> Seq<u8>;

/// The digest of the digest of `data`.
pub open spec fn sha256d(data: Seq<u8>) -> Seq<u8> {
    sha256_digest(sha256_digest(data))
}

/// The first `n` bytes of `digest`.
pub open spec fn leading_bytes(digest: Seq<u8>, n: nat) -> Seq<u8> {
    Seq::new(n, |i: int| digest[i])
}

/// The bytes of a text of ASCII characters.
pub open spec fn ascii_bytes(text: Seq<char>) -> Seq<u8> {
    Seq::new(text.len(), |i: int| text[i] as u8)
}

/// What is hashed for a tag and a payload: the tag as a netstring, then the payload
/// as it is.
pub open spec fn tagged_input(tag: Seq<u8>, val: Seq<u8>) -> Seq<u8> {
    netstring_spec(tag) + val
}

/// The tagged hash of `val` under `tag`, cut to its first `truncate_to` bytes.
pub open spec fn tagged_hash_spec(tag: Seq<u8>, val: Seq<u8>, truncate_to: nat) -> Seq<u8> {
    leading_bytes(sha256d(tagged_input(tag, val)), truncate_to)
}

/// The tag under which a private key is hashed to its write key.
pub open spec fn writekey_tag() -> Seq<u8> {
    ascii_bytes("allmydata_mutable_privkey_to_writekey_v1"@)
}

/// The tag under which a public key is hashed to its fingerprint.
pub open spec fn fingerprint_tag() -> Seq<u8> {
    ascii_bytes("allmydata_mutable_pubkey_to_fingerprint_v1"@)
}

/// The write key of a private key in DER.
pub open spec fn ssk_writekey_hash_spec(privkey: Seq<u8>) -> Seq<u8> {
    tagged_hash_spec(writekey_tag(), privkey, KEYLEN as nat)
}

/// The fingerprint of a public key in DER.
pub open spec fn ssk_pubkey_fingerprint_hash_spec(pubkey: Seq<u8>) -> Seq<u8> {
    tagged_hash_spec(fingerprint_tag(), pubkey, HASH_SIZE as nat)
}

/// `sha2::Sha256::digest`, through the `Digest` trait: the SHA-256 digest of `data`,
/// which depends on `data` alone and has 32 bytes.
#[verifier::external_body]
fn sha256(data: &[u8]) -> (digest: Vec<u8>)
    ensures
        digest@ == sha256_digest(data@),
        digest@.len() == 32,
{
    <sha2::Sha256 as sha2::Digest>::digest(data).to_vec()
}

/// The bytes of an ASCII text.
fn bytes_of_ascii(text: &str) -> (bytes: &[u8])
    requires
        vstd::string::is_ascii(text),
    ensures
        bytes@ == ascii_bytes(text@),
{
    proof {
        vstd::string::is_ascii_spec_bytes(text);
    }
    let bytes = text.as_bytes();
    assert(bytes@ =~= ascii_bytes(text@));
    bytes
}

/// Hashes `val` under `tag` and keeps the first `truncate_to` bytes of the digest.
pub fn tagged_hash(tag: &[u8], val: &[u8], truncate_to: usize) -> (digest: Vec<u8>)
    requires
        truncate_to <= HASH_SIZE,
    ensures
        digest@ == tagged_hash_spec(tag@, val@, truncate_to as nat),
        digest@.len() == truncate_to,
{
    let mut input = netstring(tag);
    append_bytes(&mut input, val);
    let once = sha256(input.as_slice());
    let mut digest = sha256(once.as_slice());
    digest.truncate(truncate_to);
    assert(digest@ =~= tagged_hash_spec(tag@, val@, truncate_to as nat));
    digest
}

/// The write key that belongs to a private key, from its DER bytes: 16 bytes.
pub fn ssk_writekey_hash(privkey: &[u8]) -> (digest: Vec<u8>)
    ensures
        digest@ == ssk_writekey_hash_spec(privkey@),
        digest@.len() == KEYLEN,
{
    let tag = "allmydata_mutable_privkey_to_writekey_v1";
    proof {
        reveal_strlit("allmydata_mutable_privkey_to_writekey_v1");
    }
    tagged_hash(bytes_of_ascii(tag), privkey, KEYLEN)
}

/// The fingerprint of a public key, from its DER bytes: 32 bytes.
pub fn ssk_pubkey_fingerprint_hash(pubkey: &[u8]) -> (digest: Vec<u8>)
    ensures
        digest@ == ssk_pubkey_fingerprint_hash_spec(pubkey@),
        digest@.len() == HASH_SIZE,
{
    let tag = "allmydata_mutable_pubkey_to_fingerprint_v1";
    proof {
        reveal_strlit("allmydata_mutable_pubkey_to_fingerprint_v1");
    }
    tagged_hash(bytes_of_ascii(tag), pubkey, HASH_SIZE)
}

/// Two pairs of a tag and a payload are hashed from the same bytes only where the
/// tags agree and the payloads agree: no tag can pass for a shorter tag followed by
/// some of the payload.
pub proof fn lemma_tagged_input_injective(
    tag1: Seq<u8>,
    val1: Seq<u8>,
    tag2: Seq<u8>,
    val2: Seq<u8>,
)
    requires
        tagged_input(tag1, val1) == tagged_input(tag2, val2),
    ensures
        tag1 == tag2,
        val1 == val2,
{
    lemma_netstring_prefix_free(tag1, val1, tag2, val2);
}

/// The two tags differ, so a write key and a fingerprint are never hashed from the
/// same bytes, whatever the keys are.
pub proof fn lemma_key_hash_inputs_differ(privkey: Seq<u8>, pubkey: Seq<u8>)
    ensures
        tagged_input(writekey_tag(), privkey) != tagged_input(fingerprint_tag(), pubkey),
{
    reveal_strlit("allmydata_mutable_privkey_to_writekey_v1");
    reveal_strlit("allmydata_mutable_pubkey_to_fingerprint_v1");
    assert(writekey_tag().len() == 40);
    assert(fingerprint_tag().len() == 42);
    if tagged_input(writekey_tag(), privkey) == tagged_input(fingerprint_tag(), pubkey) {
        lemma_tagged_input_injective(writekey_tag(), privkey, fingerprint_tag(), pubkey);
    }
}

/// The write key and the fingerprint of one byte string differ: the first has 16
/// bytes, the second 32.
pub proof fn lemma_key_hashes_differ(bytes: Seq<u8>)
    ensures
        ssk_writekey_hash_spec(bytes) != ssk_pubkey_fingerprint_hash_spec(bytes),
        ssk_writekey_hash_spec(bytes).len() == 16,
        ssk_pubkey_fingerprint_hash_spec(bytes).len() == 32,
{
    assert(ssk_writekey_hash_spec(bytes).len() == 16);
    assert(ssk_pubkey_fingerprint_hash_spec(bytes).len() == 32);
}

/// Cutting a tagged hash shorter keeps its leading bytes: the hash cut to `short`
/// bytes is the start of the hash cut to `long` bytes.
pub proof fn lemma_truncation_is_prefix(tag: Seq<u8>, val: Seq<u8>, short: nat, long: nat)
    requires
        short <= long,
    ensures
        tagged_hash_spec(tag, val, short) == tagged_hash_spec(tag, val, long).take(short as int),
{
    assert(tagged_hash_spec(tag, val, short) =~= tagged_hash_spec(tag, val, long).take(
        short as int,
    ));
}

} // verus!
