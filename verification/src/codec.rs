//! The authenticated encryption codec for content files.
//!
//! A content file is a 16-byte CTR counter start, the plaintext encrypted
//! with AES-256-CTR under the data key, and a terminal 32-byte HMAC-SHA256
//! tag under the MAC key covering everything before it.  A file shorter
//! than counter start plus tag, or whose tag does not match, fails
//! authentication as a whole: no plaintext is surfaced from it.

use vstd::prelude::*;
use vstd::slice::{slice_subrange, slice_to_vec};

use crate::ct::constant_time_eq;
use crate::error::Error;
use crate::keyfile::{IV_LEN, KEY_LEN, MAC_LEN};
use crate::prims::{
    aes256_ctr_process, ctr_xor, hmac_sha256_tag, lemma_ctr_xor_involution, lemma_tag32, tag32,
};

verus! {

/// The smallest well-formed content file: a counter start and a tag around
/// an empty ciphertext.
pub const MIN_CONTENT_LEN: usize = 48;

/// The complete content file sealing `plain` under the data key `dk` and
/// the MAC key `mk`, with counter start `iv`.
pub open spec fn sealed_bytes(dk: Seq<u8>, mk: Seq<u8>, iv: Seq<u8>, plain: Seq<u8>) -> Seq<u8> {
    let ct = ctr_xor(dk, iv, plain);
    iv + ct + tag32(mk, iv + ct)
}

/// What opening a content file yields: the plaintext, or
/// `AuthenticationFailed` for a file that is too short to carry its tag or
/// whose tag does not cover its bytes.
pub open spec fn content_opens_to(dk: Seq<u8>, mk: Seq<u8>, bytes: Seq<u8>) -> Result<
    Seq<u8>,
    Error,
> {
    if bytes.len() < MIN_CONTENT_LEN {
        Err(Error::AuthenticationFailed)
    } else {
        let iv = bytes.subrange(0, IV_LEN as int);
        let body = bytes.subrange(0, bytes.len() - MAC_LEN);
        let ct = bytes.subrange(IV_LEN as int, bytes.len() - MAC_LEN);
        let tag = bytes.subrange(bytes.len() - MAC_LEN, bytes.len() as int);
        if tag != tag32(mk, body) {
            Err(Error::AuthenticationFailed)
        } else {
            Ok(ctr_xor(dk, iv, ct))
        }
    }
}

/// Seal `plain` into a content file under the given keys and counter start.
pub fn seal_content(dk: &[u8], mk: &[u8], iv: &[u8], plain: &[u8]) -> (r: Vec<u8>)
    requires
        dk@.len() == KEY_LEN,
        iv@.len() == IV_LEN,
        plain@.len() + MIN_CONTENT_LEN <= usize::MAX,
    ensures
        r@ == sealed_bytes(dk@, mk@, iv@, plain@),
        r@.len() == plain@.len() + MIN_CONTENT_LEN,
{
    let ct = aes256_ctr_process(dk, iv, plain);

    let mut body: Vec<u8> = slice_to_vec(iv);
    let mut ct_part = slice_to_vec(ct.as_slice());
    body.append(&mut ct_part);
    assert(body@ =~= iv@ + ct@);

    let mac = hmac_sha256_tag(mk, body.as_slice());
    proof {
        lemma_tag32(mk@, body@, mac@);
    }

    let mut out = body;
    let mut mac_part = slice_to_vec(mac.as_slice());
    out.append(&mut mac_part);
    assert(out@ =~= sealed_bytes(dk@, mk@, iv@, plain@));
    out
}

/// Open a content file: verify its tag — in constant time, before anything
/// is decrypted — and give the plaintext back, or fail authentication
/// without surfacing anything.
pub fn open_content(dk: &[u8], mk: &[u8], bytes: &[u8]) -> (r: Result<Vec<u8>, Error>)
    requires
        dk@.len() == KEY_LEN,
    ensures
        r matches Ok(plain) ==> content_opens_to(dk@, mk@, bytes@) == Ok::<_, Error>(plain@),
        r matches Err(e) ==> content_opens_to(dk@, mk@, bytes@) == Err::<Seq<u8>, _>(e),
{
    if bytes.len() < MIN_CONTENT_LEN {
        return Err(Error::AuthenticationFailed);
    }
    let iv = slice_subrange(bytes, 0, IV_LEN);
    let body = slice_subrange(bytes, 0, bytes.len() - MAC_LEN);
    let ct = slice_subrange(bytes, IV_LEN, bytes.len() - MAC_LEN);
    let tag = slice_subrange(bytes, bytes.len() - MAC_LEN, bytes.len());

    let mac = hmac_sha256_tag(mk, body);
    proof {
        lemma_tag32(mk@, body@, mac@);
    }
    if !constant_time_eq(tag, mac.as_slice()) {
        return Err(Error::AuthenticationFailed);
    }
    Ok(aes256_ctr_process(dk, iv, ct))
}

/// Opening a sealed content file with the keys that sealed it gives the
/// plaintext back.
pub proof fn lemma_content_roundtrip(dk: Seq<u8>, mk: Seq<u8>, iv: Seq<u8>, plain: Seq<u8>)
    requires
        iv.len() == IV_LEN,
    ensures
        content_opens_to(dk, mk, sealed_bytes(dk, mk, iv, plain)) == Ok::<_, Error>(plain),
{
    let ct = ctr_xor(dk, iv, plain);
    let bytes = sealed_bytes(dk, mk, iv, plain);
    assert(bytes.len() == plain.len() + MIN_CONTENT_LEN);
    assert(bytes.subrange(0, IV_LEN as int) =~= iv);
    assert(bytes.subrange(0, bytes.len() - MAC_LEN) =~= iv + ct);
    assert(bytes.subrange(IV_LEN as int, bytes.len() - MAC_LEN) =~= ct);
    assert(bytes.subrange(bytes.len() - MAC_LEN, bytes.len() as int) =~= tag32(mk, iv + ct));
    lemma_ctr_xor_involution(dk, iv, plain);
}

} // verus!
