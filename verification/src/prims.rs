//! Trusted wrappers around the cryptographic primitives of the `crypto`
//! crate, together with names for what each primitive returns.
//!
//! Each primitive is a pure function of its arguments; its result is given a
//! name (an uninterpreted spec function) rather than a transcription of the
//! algorithm, and the wrapper's contract ties the call to that name.  The one
//! exception is AES-256-CTR, whose result is stated as the XOR of the input
//! with a named keystream, so that the involution of encryption and
//! decryption is provable here.

use vstd::prelude::*;

use crate::error::Error;
use rand::Rng;

verus! {

/// Byte `i` of the AES-256-CTR keystream under `key` and the counter start
/// `iv`: the stream that `crypto::blockmodes::CtrMode` XORs into its input.
/// It depends on the key, the counter start and the position alone.
pub uninterp spec fn aes256_ctr_keystream_byte(key: Seq<u8>, iv: Seq<u8>, i: int) -> u8;

/// What AES-256-CTR makes of `data` under `key` and `iv`: every byte XORed
/// with the keystream byte at its position.  Applying it twice returns the
/// input, which is the mode's decryption.
pub open spec fn ctr_xor(key: Seq<u8>, iv: Seq<u8>, data: Seq<u8>) -> Seq<u8> {
    Seq::new(data.len(), |i: int| data[i] ^ aes256_ctr_keystream_byte(key, iv, i))
}

/// The 64 bytes that PBKDF2 with HMAC-SHA-512 derives from a passphrase, a
/// salt and an iteration count.
pub uninterp spec fn pbkdf2_sha512(passphrase: Seq<u8>, salt: Seq<u8>, rounds: u32) -> Seq<u8>;

/// The 64 bytes that HKDF-Expand with SHA-512 and empty info derives from
/// the input keying material.
pub uninterp spec fn hkdf_sha512(ikm: Seq<u8>) -> Seq<u8>;

/// The 32-byte HMAC-SHA-256 tag of `data` under `key`.
pub uninterp spec fn hmac_sha256(key: Seq<u8>, data: Seq<u8>) -> Seq<u8>;

/// The HMAC-SHA-256 tag of `data` under `key`, read as a sequence of exactly
/// 32 bytes.  The tag really is 32 bytes long, a fact the layout spec
/// functions need; this form carries the length while `hmac_sha256` itself,
/// being uninterpreted, cannot.
pub open spec fn tag32(key: Seq<u8>, data: Seq<u8>) -> Seq<u8> {
    Seq::new(32, |i: int| hmac_sha256(key, data)[i])
}

/// A 32-byte sequence equal to `hmac_sha256(key, data)` is `tag32(key, data)`.
pub proof fn lemma_tag32(key: Seq<u8>, data: Seq<u8>, tag: Seq<u8>)
    requires
        tag == hmac_sha256(key, data),
        tag.len() == 32,
    ensures
        tag == tag32(key, data),
{
    assert(tag =~= tag32(key, data));
}

/// XOR is an involution byte for byte, so CTR-processing a buffer twice
/// under the same key and counter start yields the buffer back.
pub proof fn lemma_ctr_xor_involution(key: Seq<u8>, iv: Seq<u8>, data: Seq<u8>)
    ensures
        ctr_xor(key, iv, ctr_xor(key, iv, data)) == data,
{
    let once = ctr_xor(key, iv, data);
    let twice = ctr_xor(key, iv, once);
    assert forall|i: int| 0 <= i < data.len() implies twice[i] == data[i] by {
        let k = aes256_ctr_keystream_byte(key, iv, i);
        let d = data[i];
        assert((d ^ k) ^ k == d) by (bit_vector);
    }
    assert(twice =~= data);
}

/// Relies on `crypto::pbkdf2::pbkdf2` driven by `crypto::hmac::Hmac` over
/// `crypto::sha2::Sha512`: fills the 64-byte output deterministically from
/// the passphrase, the salt and the iteration count.  The iteration count
/// must be positive; `pbkdf2` asserts as much.
#[verifier::external_body]
pub(crate) fn pbkdf2_sha512_derive(passphrase: &[u8], salt: &[u8], rounds: u32) -> (r: Vec<u8>)
    requires
        rounds >= 1,
    ensures
        r@ == pbkdf2_sha512(passphrase@, salt@, rounds),
        r@.len() == 64,
{
    let mut mac = crypto::hmac::Hmac::new(crypto::sha2::Sha512::new(), passphrase);
    let mut out = [0u8; 64];
    crypto::pbkdf2::pbkdf2(&mut mac, salt, rounds, &mut out);
    out.to_vec()
}

/// Relies on `crypto::hkdf::hkdf_expand` with `crypto::sha2::Sha512` and
/// empty info: fills the 64-byte output deterministically from the input
/// keying material.
#[verifier::external_body]
pub(crate) fn hkdf_sha512_expand(ikm: &[u8]) -> (r: Vec<u8>)
    ensures
        r@ == hkdf_sha512(ikm@),
        r@.len() == 64,
{
    let mut out = [0u8; 64];
    crypto::hkdf::hkdf_expand(crypto::sha2::Sha512::new(), ikm, &[], &mut out);
    out.to_vec()
}

/// Relies on `crypto::hmac::Hmac` over `crypto::sha2::Sha256`: the 32-byte
/// tag is a deterministic function of the key and the message.
#[verifier::external_body]
pub(crate) fn hmac_sha256_tag(key: &[u8], data: &[u8]) -> (r: Vec<u8>)
    ensures
        r@ == hmac_sha256(key@, data@),
        r@.len() == 32,
{
    let mut mac = crypto::hmac::Hmac::new(crypto::sha2::Sha256::new(), key);
    crypto::mac::Mac::input(&mut mac, data);
    let result = crypto::mac::Mac::result(&mut mac);
    result.code().to_vec()
}

/// Relies on `crypto::blockmodes::CtrMode` over
/// `crypto::aessafe::AesSafe256Encryptor`: the output XORs the input with a
/// keystream that depends on the key, the counter start and the byte
/// position alone, so encryption and decryption are the same operation.
/// The key must be 32 bytes and the counter start 16, or the constructors
/// panic.
#[verifier::external_body]
pub(crate) fn aes256_ctr_process(key: &[u8], iv: &[u8], data: &[u8]) -> (r: Vec<u8>)
    requires
        key@.len() == 32,
        iv@.len() == 16,
    ensures
        r@ == ctr_xor(key@, iv@, data@),
        r@.len() == data@.len(),
        forall|i: int|
            0 <= i < data@.len() ==> r@[i] == (data@[i] ^ aes256_ctr_keystream_byte(
                key@,
                iv@,
                i,
            )),
{
    let algorithm = crypto::aessafe::AesSafe256Encryptor::new(key);
    let mut cipher = crypto::blockmodes::CtrMode::new(algorithm, iv.to_vec());
    let mut out = vec![0u8; data.len()];
    crypto::symmetriccipher::SynchronousStreamCipher::process(&mut cipher, data, &mut out);
    out
}

/// Relies on `rand::Rng::try_fill` on `rand::thread_rng`: on success the
/// buffer is filled from a cryptographically secure generator.  Nothing is
/// promised of the bytes themselves.
#[verifier::external_body]
pub(crate) fn random_bytes(n: usize) -> (r: Result<Vec<u8>, Error>)
    ensures
        r matches Ok(v) ==> v@.len() == n,
        r matches Err(e) ==> e == Error::RandomnessUnavailable,
{
    let mut buf = vec![0u8; n];
    let mut rng = rand::thread_rng();
    match rng.try_fill(&mut buf[..]) {
        Ok(()) => Ok(buf),
        Err(_) => Err(Error::RandomnessUnavailable),
    }
}

} // verus!
