//! RSA private keys read from PEM text, held as the two DER encodings that a
//! capability is hashed from.

use vstd::prelude::*;

verus! {

/// An RSA key pair as its two canonical encodings: the private key as a PKCS#8
/// document, the public key as a SubjectPublicKeyInfo document, both in DER.
pub struct RsaKeyDer {
    pub private_der: Vec<u8>,
    pub public_der: Vec<u8>,
}

impl View for RsaKeyDer {
    type V = (Seq<u8>, Seq<u8>);

    open spec fn view(&self) -> (Seq<u8>, Seq<u8>) {
        (self.private_der@, self.public_der@)
    }
}

/// The key that `pem` holds as a PKCS#1 document (`BEGIN RSA PRIVATE KEY`): its
/// private and its public DER encoding, or `None` where `pem` is no such document.
pub uninterp spec fn pkcs1_pem_key(pem: Seq<char>) -> Option<(Seq<u8>, Seq<u8>)>;

/// The key that `pem` holds as a PKCS#8 document (`BEGIN PRIVATE KEY`): its private
/// and its public DER encoding, or `None` where `pem` is no such document.
pub uninterp spec fn pkcs8_pem_key(pem: Seq<char>) -> Option<(Seq<u8>, Seq<u8>)>;

/// The key that `pem` holds in either form, the PKCS#1 reading first.
pub open spec fn pem_key(pem: Seq<char>) -> Option<(Seq<u8>, Seq<u8>)> {
    if pkcs1_pem_key(pem) is Some {
        pkcs1_pem_key(pem)
    } else {
        pkcs8_pem_key(pem)
    }
}

/// `rsa::RsaPrivateKey::from_pkcs1_pem`, then `to_pkcs8_der` on the key and
/// `to_public_key_der` on its `to_public_key`. Claimed: whether the text is read as
/// a key, and the two encodings of that key, depend on the text alone. `None` stands
/// for an error of any of the calls.
#[verifier::external_body]
fn read_pkcs1_pem(pem: &str) -> (key: Option<RsaKeyDer>)
    ensures
        match key {
            Some(k) => pkcs1_pem_key(pem@) == Some(k@),
            None => pkcs1_pem_key(pem@) is None,
        },
{
    let key = <rsa::RsaPrivateKey as rsa::pkcs1::DecodeRsaPrivateKey>::from_pkcs1_pem(pem).ok()?;
    let private = rsa::pkcs8::EncodePrivateKey::to_pkcs8_der(&key).ok()?;
    let public = rsa::pkcs8::EncodePublicKey::to_public_key_der(&key.to_public_key()).ok()?;
    Some(RsaKeyDer {
        private_der: private.as_bytes().to_vec(),
        public_der: public.as_bytes().to_vec(),
    })
}

/// `rsa::RsaPrivateKey::from_pkcs8_pem`, then `to_pkcs8_der` on the key and
/// `to_public_key_der` on its `to_public_key`. Claimed: whether the text is read as
/// a key, and the two encodings of that key, depend on the text alone. `None` stands
/// for an error of any of the calls.
#[verifier::external_body]
fn read_pkcs8_pem(pem: &str) -> (key: Option<RsaKeyDer>)
    ensures
        match key {
            Some(k) => pkcs8_pem_key(pem@) == Some(k@),
            None => pkcs8_pem_key(pem@) is None,
        },
{
    let key = <rsa::RsaPrivateKey as rsa::pkcs8::DecodePrivateKey>::from_pkcs8_pem(pem).ok()?;
    let private = rsa::pkcs8::EncodePrivateKey::to_pkcs8_der(&key).ok()?;
    let public = rsa::pkcs8::EncodePublicKey::to_public_key_der(&key.to_public_key()).ok()?;
    Some(RsaKeyDer {
        private_der: private.as_bytes().to_vec(),
        public_der: public.as_bytes().to_vec(),
    })
}

/// Reads a private key from PEM text in either of its two forms: as a PKCS#1
/// document first, and as a PKCS#8 document where that fails.
pub fn read_private_key_pem(pem: &str) -> (key: Option<RsaKeyDer>)
    ensures
        match key {
            Some(k) => pem_key(pem@) == Some(k@),
            None => pem_key(pem@) is None,
        },
{
    match read_pkcs1_pem(pem) {
        Some(k) => Some(k),
        None => read_pkcs8_pem(pem),
    }
}

} // verus!
