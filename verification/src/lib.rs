//! Capability strings for mutable objects of a Tahoe-LAFS storage grid,
//! derived from an RSA key pair.

pub mod keys;
pub mod util;

pub use crate::util::base32;
pub use crate::util::hashutil;
pub use crate::util::netstring;

use crate::keys::{pem_key, pkcs1_pem_key, pkcs8_pem_key, read_private_key_pem, RsaKeyDer};
use crate::util::base32::{b2a, b2a_spec, encoded_len, is_symbol};
use crate::util::hashutil::{
    ssk_pubkey_fingerprint_hash, ssk_pubkey_fingerprint_hash_spec, ssk_writekey_hash,
    ssk_writekey_hash_spec,
};
use vstd::prelude::*;
use vstd::string::StringExecFns;
use vstd::string::StrSliceExecFns;

verus! {

/// Why no capability was derived.
#[derive(Clone, Copy, Debug, PartialEq, Eq, Structural)]
pub enum DeriveError {
    /// The key text is a private key in neither PEM form.
    Parse,
    /// The format label is not one that a mutable capability can carry.
    UnsupportedFormat,
}

/// The labels of the two mutable formats: `SSK` for a single segment, `MDMF` for
/// several.
pub open spec fn is_format_label(label: Seq<char>) -> bool {
    label == "SSK"@ || label == "MDMF"@
}

/// The text whose characters have the codes `bytes`.
pub open spec fn ascii_text(bytes: Seq<u8>) -> Seq<char> {
    Seq::new(bytes.len(), |i: int| bytes[i] as char)
}

/// The write key of a private key, as text.
pub open spec fn writekey_text(private_der: Seq<u8>) -> Seq<char> {
    ascii_text(b2a_spec(ssk_writekey_hash_spec(private_der)))
}

/// The fingerprint of a public key, as text.
pub open spec fn fingerprint_text(public_der: Seq<u8>) -> Seq<char> {
    ascii_text(b2a_spec(ssk_pubkey_fingerprint_hash_spec(public_der)))
}

/// The capability of a key pair under a label: `URI:`, the label, the write key and
/// the fingerprint, with a colon between each two.
pub open spec fn capability_spec(label: Seq<char>, private_der: Seq<u8>, public_der: Seq<u8>) -> Seq<
    char,
> {
    "URI:"@ + label + ":"@ + writekey_text(private_der) + ":"@ + fingerprint_text(public_der)
}

/// What a derivation comes to, given the key that was read from the text.
pub open spec fn capability_for_key_spec(
    key: Option<(Seq<u8>, Seq<u8>)>,
    label: Seq<char>,
) -> Result<Seq<char>, DeriveError> {
    match key {
        None => Err(DeriveError::Parse),
        Some(k) => if is_format_label(label) {
            Ok(capability_spec(label, k.0, k.1))
        } else {
            Err(DeriveError::UnsupportedFormat)
        },
    }
}

/// What a derivation comes to for a key text and a label.
pub open spec fn derive_spec(pem: Seq<char>, label: Seq<char>) -> Result<Seq<char>, DeriveError> {
    capability_for_key_spec(pem_key(pem), label)
}

/// Whether an outcome is the one that `expected` describes.
pub open spec fn outcome_is(
    outcome: Result<String, DeriveError>,
    expected: Result<Seq<char>, DeriveError>,
) -> bool {
    match outcome {
        Ok(text) => expected == Ok::<Seq<char>, DeriveError>(text@),
        Err(e) => expected == Err::<Seq<char>, DeriveError>(e),
    }
}

/// `String::from_utf8`, on bytes below 128 only: those are valid UTF-8, each the
/// code of one character, so the text has one character for each byte, with the
/// byte's code. `None` stands for its error, which such bytes never give.
#[verifier::external_body]
fn text_of_bytes(bytes: Vec<u8>) -> (text: Option<String>)
    requires
        forall|i: int| 0 <= i < bytes@.len() ==> bytes@[i] < 128,
    ensures
        text is Some,
        text.unwrap()@ == ascii_text(bytes@),
{
    match String::from_utf8(bytes) {
        Ok(t) => Some(t),
        Err(_) => None,
    }
}

/// Whether `label` names one of the mutable formats.
pub fn is_supported_format(label: &str) -> (supported: bool)
    ensures
        supported == is_format_label(label@),
{
    proof {
        reveal_strlit("SSK");
        reveal_strlit("MDMF");
    }
    let n = label.unicode_len();
    if n == 3 {
        let supported = label.get_char(0) == 'S' && label.get_char(1) == 'S' && label.get_char(2)
            == 'K';
        assert(supported == (label@ =~= "SSK"@));
        supported
    } else if n == 4 {
        let supported = label.get_char(0) == 'M' && label.get_char(1) == 'D' && label.get_char(2)
            == 'M' && label.get_char(3) == 'F';
        assert(supported == (label@ =~= "MDMF"@));
        supported
    } else {
        false
    }
}

/// Writes a digest as text.
fn digest_text(digest: &[u8]) -> (text: String)
    ensures
        text@ == ascii_text(b2a_spec(digest@)),
{
    let encoded = b2a(digest);
    assert forall|i: int| 0 <= i < encoded@.len() implies encoded@[i] < 128 by {
        assert(is_symbol(encoded@[i]));
    }
    text_of_bytes(encoded).unwrap()
}

/// Puts a capability together from the label of a mutable format and the two
/// encodings of a key pair.
pub fn mutable_capability(label: &str, private_der: &[u8], public_der: &[u8]) -> (uri: String)
    requires
        is_format_label(label@),
    ensures
        uri@ == capability_spec(label@, private_der@, public_der@),
{
    let writekey = ssk_writekey_hash(private_der);
    let fingerprint = ssk_pubkey_fingerprint_hash(public_der);
    let writekey_b32 = digest_text(writekey.as_slice());
    let fingerprint_b32 = digest_text(fingerprint.as_slice());
    let mut uri = String::from_str("URI:");
    uri.append(label);
    uri.append(":");
    uri.append(writekey_b32.as_str());
    uri.append(":");
    uri.append(fingerprint_b32.as_str());
    uri
}

/// Derives the capability for a key that was read, or says why there is none: no
/// key gives `Parse`, a key with a label that names no format `UnsupportedFormat`.
pub fn capability_for_key(key: Option<RsaKeyDer>, format: &str) -> (outcome: Result<
    String,
    DeriveError,
>)
    ensures
        outcome_is(
            outcome,
            capability_for_key_spec(
                match key {
                    Some(k) => Some(k@),
                    None => None,
                },
                format@,
            ),
        ),
{
    match key {
        None => Err(DeriveError::Parse),
        Some(k) => {
            if is_supported_format(format) {
                Ok(mutable_capability(format, k.private_der.as_slice(), k.public_der.as_slice()))
            } else {
                Err(DeriveError::UnsupportedFormat)
            }
        },
    }
}

/// Derives the capability of a mutable object from the PEM text of its RSA private
/// key and a format label. The text may be a PKCS#1 or a PKCS#8 document. The
/// outcome depends on the two texts alone: the same texts always give the same
/// capability or the same error.
pub fn derive_lafs_mutable(private_key_pem: &str, format: &str) -> (outcome: Result<
    String,
    DeriveError,
>)
    ensures
        outcome_is(outcome, derive_spec(private_key_pem@, format@)),
{
    let key = read_private_key_pem(private_key_pem);
    capability_for_key(key, format)
}

/// One key gives one capability, whichever of the two PEM forms it comes in: where
/// `legacy` is read as a PKCS#1 document, and `modern` is none but is read as a
/// PKCS#8 document of the same key, both give the same outcome under every label.
pub proof fn lemma_container_independence(legacy: Seq<char>, modern: Seq<char>, label: Seq<char>)
    requires
        pkcs1_pem_key(legacy) is Some,
        pkcs1_pem_key(modern) is None,
        pkcs8_pem_key(modern) == pkcs1_pem_key(legacy),
    ensures
        derive_spec(legacy, label) == derive_spec(modern, label),
{
}

/// A derivation has one outcome: two that both answer to the same key text and
/// label are both a capability, and the same one, or both the same error.
pub proof fn lemma_derive_deterministic(
    first: Result<String, DeriveError>,
    second: Result<String, DeriveError>,
    pem: Seq<char>,
    label: Seq<char>,
)
    requires
        outcome_is(first, derive_spec(pem, label)),
        outcome_is(second, derive_spec(pem, label)),
    ensures
        match (first, second) {
            (Ok(a), Ok(b)) => a@ == b@,
            (Err(a), Err(b)) => a == b,
            _ => false,
        },
{
}

/// A derivation fails for want of a key exactly where the text is read in neither
/// form, and for its label exactly where a key was read and the label names no
/// format; in every other case it gives the capability of the key that was read.
pub proof fn lemma_derive_outcomes(pem: Seq<char>, label: Seq<char>)
    ensures
        derive_spec(pem, label) == Err::<Seq<char>, DeriveError>(DeriveError::Parse) <==> (
        pkcs1_pem_key(pem) is None && pkcs8_pem_key(pem) is None),
        derive_spec(pem, label) == Err::<Seq<char>, DeriveError>(DeriveError::UnsupportedFormat)
            <==> (pem_key(pem) is Some && !is_format_label(label)),
        derive_spec(pem, label) is Ok <==> (pem_key(pem) is Some && is_format_label(label)),
{
}

/// Every capability starts with `URI:`, its label and a colon, goes on with the 26
/// characters of the write key and a colon, and ends with the 52 characters of the
/// fingerprint.
pub proof fn lemma_capability_shape(label: Seq<char>, private_der: Seq<u8>, public_der: Seq<u8>)
    ensures
        capability_spec(label, private_der, public_der).len() == label.len() + 84,
        capability_spec(label, private_der, public_der).take(label.len() as int + 5) == "URI:"@ + label
            + ":"@,
        writekey_text(private_der).len() == 26,
        fingerprint_text(public_der).len() == 52,
        capability_spec(label, private_der, public_der).skip(label.len() as int + 32)
            == fingerprint_text(public_der),
{
    reveal_strlit("URI:");
    reveal_strlit(":");
    let uri = capability_spec(label, private_der, public_der);
    assert(ssk_writekey_hash_spec(private_der).len() == 16);
    assert(ssk_pubkey_fingerprint_hash_spec(public_der).len() == 32);
    assert(encoded_len(16) == 26);
    assert(encoded_len(32) == 52);
    assert(uri.take(label.len() as int + 5) =~= "URI:"@ + label + ":"@);
    assert(uri.skip(label.len() as int + 32) =~= fingerprint_text(public_der));
}

} // verus!
