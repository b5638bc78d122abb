//! Boundary to the crypto library: random bytes, one-time wrapping key
//! pairs, and the unwrap step of the import protocol.
//!
//! Each function here wraps exactly one outside operation; everything that
//! decides on the outcome (validation, state changes, commits) lives in
//! verified code and takes these results as plain values.

use vstd::prelude::*;

use crate::types::WrappingKeyAlgorithm;

verus! {

/// Byte-for-byte equality of two buffers.
pub fn bytes_eq(a: &Vec<u8>, b: &Vec<u8>) -> (r: bool)
    ensures
        r == (a@ == b@),
{
    if a.len() != b.len() {
        proof {
            assert(a@.len() != b@.len());
        }
        return false;
    }
    let mut i: usize = 0;
    while i < a.len()
        invariant
            a@.len() == b@.len(),
            0 <= i <= a@.len(),
            forall|j: int| 0 <= j < i ==> a@[j] == b@[j],
        decreases a@.len() - i,
    {
        if a[i] != b[i] {
            return false;
        }
        i += 1;
    }
    proof {
        assert(a@ =~= b@);
    }
    true
}

/// Overwrite a buffer with zeros (zeroization of key material).
pub fn wipe_bytes(buf: &mut Vec<u8>)
    ensures
        final(buf)@.len() == old(buf)@.len(),
        forall|j: int| 0 <= j < final(buf)@.len() ==> final(buf)@[j] == 0u8,
{
    let n = buf.len();
    let mut i: usize = 0;
    while i < n
        invariant
            n == buf@.len(),
            0 <= i <= n,
            forall|j: int| 0 <= j < i ==> buf@[j] == 0u8,
        decreases n - i,
    {
        buf.set(i, 0u8);
        i += 1;
    }
}

/// Relies on `openssl::rand::rand_bytes`: on success the buffer is filled
/// completely; the content is random, so nothing is claimed of it.  The
/// byte count must fit the C interface (`rand_bytes` asserts the buffer
/// length fits an `i32`), so a larger request is excluded here.
#[verifier::external_body]
pub(crate) fn random_bytes(n: usize) -> (r: Option<Vec<u8>>)
    requires
        n <= 0x7fff_ffff,
    ensures
        r matches Some(v) ==> v@.len() == n,
{
    let mut buf = vec![0u8; n];
    match openssl::rand::rand_bytes(&mut buf) {
        Ok(()) => Some(buf),
        Err(_) => None,
    }
}

/// Relies on `openssl::rsa::Rsa::generate` and the DER export of
/// `openssl::pkey::PKey`: a fresh RSA-2048 pair as (public, private) DER.
/// The pair is random, so nothing is claimed of the bytes.
#[verifier::external_body]
pub(crate) fn rsa_generate_keypair_der() -> (r: Option<(Vec<u8>, Vec<u8>)>)
{
    let rsa = openssl::rsa::Rsa::generate(2048).ok()?;
    let key = openssl::pkey::PKey::from_rsa(rsa).ok()?;
    let public_der = key.public_key_to_der().ok()?;
    let private_der = key.private_key_to_der().ok()?;
    Some((public_der, private_der))
}

/// Relies on `openssl::ec::EcKey::generate` over the SM2 curve and the DER
/// export of `openssl::pkey::PKey`: a fresh SM2 pair as (public, private)
/// DER.  The pair is random, so nothing is claimed of the bytes.
#[verifier::external_body]
pub(crate) fn sm2_generate_keypair_der() -> (r: Option<(Vec<u8>, Vec<u8>)>)
{
    let group = openssl::ec::EcGroup::from_curve_name(openssl::nid::Nid::SM2).ok()?;
    let ec = openssl::ec::EcKey::generate(&group).ok()?;
    let key = openssl::pkey::PKey::from_ec_key(ec).ok()?;
    let public_der = key.public_key_to_der().ok()?;
    let private_der = key.private_key_to_der().ok()?;
    Some((public_der, private_der))
}

/// What the unwrap step returns for a private key, algorithm and
/// ciphertext: decryption depends on those three alone, so the result only
/// gets a name here; the functions below relate their outcome to it.
pub uninterp spec fn unwrap_of(
    priv_der: Seq<u8>,
    alg: WrappingKeyAlgorithm,
    wrapped: Seq<u8>,
) -> Option<Seq<u8>>;

/// Relies on `openssl::encrypt::Decrypter` with PKCS#1 v1.5 padding over
/// an RSA private key read with `PKey::private_key_from_der`.  For this
/// padding the rejection of a malformed ciphertext is a property of the
/// linked crypto library; the name below is read against that one build.
#[verifier::external_body]
fn unwrap_pkcs1(priv_der: &Vec<u8>, wrapped: &Vec<u8>) -> (r: Option<Vec<u8>>)
    ensures
        (match r {
            Some(v) => Some(v@),
            None => None,
        }) == unwrap_of(priv_der@, WrappingKeyAlgorithm::RsaesPkcs1V1_5, wrapped@),
{
    let key = openssl::pkey::PKey::private_key_from_der(priv_der).ok()?;
    let mut d = openssl::encrypt::Decrypter::new(&key).ok()?;
    d.set_rsa_padding(openssl::rsa::Padding::PKCS1).ok()?;
    let mut out = vec![0u8; d.decrypt_len(wrapped).ok()?];
    let n = d.decrypt(wrapped, &mut out).ok()?;
    out.truncate(n);
    Some(out)
}

/// Relies on `openssl::encrypt::Decrypter` with OAEP (SHA-1) padding over
/// an RSA private key read with `PKey::private_key_from_der`.
#[verifier::external_body]
fn unwrap_oaep_sha1(priv_der: &Vec<u8>, wrapped: &Vec<u8>) -> (r: Option<Vec<u8>>)
    ensures
        (match r {
            Some(v) => Some(v@),
            None => None,
        }) == unwrap_of(priv_der@, WrappingKeyAlgorithm::RsaesOaepSha1, wrapped@),
{
    let key = openssl::pkey::PKey::private_key_from_der(priv_der).ok()?;
    let mut d = openssl::encrypt::Decrypter::new(&key).ok()?;
    d.set_rsa_padding(openssl::rsa::Padding::PKCS1_OAEP).ok()?;
    let mut out = vec![0u8; d.decrypt_len(wrapped).ok()?];
    let n = d.decrypt(wrapped, &mut out).ok()?;
    out.truncate(n);
    Some(out)
}

/// Relies on `openssl::encrypt::Decrypter` with OAEP (SHA-256, MGF1
/// SHA-256) padding over an RSA private key read with
/// `PKey::private_key_from_der`.
#[verifier::external_body]
fn unwrap_oaep_sha256(priv_der: &Vec<u8>, wrapped: &Vec<u8>) -> (r: Option<Vec<u8>>)
    ensures
        (match r {
            Some(v) => Some(v@),
            None => None,
        }) == unwrap_of(priv_der@, WrappingKeyAlgorithm::RsaesOaepSha256, wrapped@),
{
    let key = openssl::pkey::PKey::private_key_from_der(priv_der).ok()?;
    let mut d = openssl::encrypt::Decrypter::new(&key).ok()?;
    d.set_rsa_padding(openssl::rsa::Padding::PKCS1_OAEP).ok()?;
    d.set_rsa_oaep_md(openssl::hash::MessageDigest::sha256()).ok()?;
    d.set_rsa_mgf1_md(openssl::hash::MessageDigest::sha256()).ok()?;
    let mut out = vec![0u8; d.decrypt_len(wrapped).ok()?];
    let n = d.decrypt(wrapped, &mut out).ok()?;
    out.truncate(n);
    Some(out)
}

/// Relies on `openssl::encrypt::Decrypter` over an SM2 private key read
/// with `PKey::private_key_from_der`.
#[verifier::external_body]
fn unwrap_sm2(priv_der: &Vec<u8>, wrapped: &Vec<u8>) -> (r: Option<Vec<u8>>)
    ensures
        (match r {
            Some(v) => Some(v@),
            None => None,
        }) == unwrap_of(priv_der@, WrappingKeyAlgorithm::SM2PKE, wrapped@),
{
    let key = openssl::pkey::PKey::private_key_from_der(priv_der).ok()?;
    let d = openssl::encrypt::Decrypter::new(&key).ok()?;
    let mut out = vec![0u8; d.decrypt_len(wrapped).ok()?];
    let n = d.decrypt(wrapped, &mut out).ok()?;
    out.truncate(n);
    Some(out)
}

/// The unwrap step: decrypt the wrapped material under the session's
/// private key with the declared wrapping algorithm.
pub fn unwrap_wrapped(priv_der: &Vec<u8>, alg: WrappingKeyAlgorithm, wrapped: &Vec<u8>) -> (r:
    Option<Vec<u8>>)
    ensures
        (match r {
            Some(v) => Some(v@),
            None => None,
        }) == unwrap_of(priv_der@, alg, wrapped@),
{
    match alg {
        WrappingKeyAlgorithm::RsaesPkcs1V1_5 => unwrap_pkcs1(priv_der, wrapped),
        WrappingKeyAlgorithm::RsaesOaepSha1 => unwrap_oaep_sha1(priv_der, wrapped),
        WrappingKeyAlgorithm::RsaesOaepSha256 => unwrap_oaep_sha256(priv_der, wrapped),
        WrappingKeyAlgorithm::SM2PKE => unwrap_sm2(priv_der, wrapped),
    }
}

} // verus!
