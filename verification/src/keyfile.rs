//! The on-disk key file: a small versioned record holding the master key,
//! encrypted under a passphrase-derived key and authenticated.
//!
//! Byte layout, in order: a version byte (`1`), a 16-byte CTR counter start,
//! a 16-byte salt, a 32-byte HMAC-SHA256 tag, and the 32-byte master key
//! encrypted with AES-256-CTR — 97 bytes in all.  The tag covers the
//! version, the counter start, the salt and the ciphertext, under the second
//! half of the PBKDF2 output; the first half is the key-encryption key.

use vstd::prelude::*;
use vstd::slice::{slice_subrange, slice_to_vec};

use crate::ct::constant_time_eq;
use crate::error::Error;
use crate::prims::{
    aes256_ctr_process, ctr_xor, hmac_sha256, hmac_sha256_tag, lemma_ctr_xor_involution,
    lemma_tag32, pbkdf2_sha512, pbkdf2_sha512_derive, tag32,
};

verus! {

/// The version byte every key file starts with.
pub const KEY_FILE_VERSION: u8 = 1;

/// The length of a well-formed key file in bytes.
pub const KEY_FILE_LEN: usize = 97;

/// The salt length in bytes.
pub const SALT_LEN: usize = 16;

/// The CTR counter-start length in bytes.
pub const IV_LEN: usize = 16;

/// The master-key length in bytes.
pub const KEY_LEN: usize = 32;

/// The authentication-tag length in bytes.
pub const MAC_LEN: usize = 32;

/// The key-encryption key: the first 32 of the 64 bytes PBKDF2 derives from
/// the passphrase and the salt.
pub open spec fn kek_of(pass: Seq<u8>, salt: Seq<u8>, rounds: u32) -> Seq<u8> {
    pbkdf2_sha512(pass, salt, rounds).subrange(0, 32)
}

/// The key-file authentication key: the last 32 of the 64 bytes PBKDF2
/// derives from the passphrase and the salt.
pub open spec fn auth_key_of(pass: Seq<u8>, salt: Seq<u8>, rounds: u32) -> Seq<u8> {
    pbkdf2_sha512(pass, salt, rounds).subrange(32, 64)
}

/// The message the key-file tag covers: version, counter start, salt and
/// ciphertext, in file order.
pub open spec fn key_file_mac_message(iv: Seq<u8>, salt: Seq<u8>, ct: Seq<u8>) -> Seq<u8> {
    seq![KEY_FILE_VERSION] + iv + salt + ct
}

/// The complete key file sealing `master` under `pass`, with the given salt
/// and counter start.
pub open spec fn key_file_bytes(
    pass: Seq<u8>,
    salt: Seq<u8>,
    iv: Seq<u8>,
    master: Seq<u8>,
    rounds: u32,
) -> Seq<u8> {
    let ct = ctr_xor(kek_of(pass, salt, rounds), iv, master);
    let mac = tag32(auth_key_of(pass, salt, rounds), key_file_mac_message(iv, salt, ct));
    seq![KEY_FILE_VERSION] + iv + salt + mac + ct
}

/// What opening a key file under `pass` yields: the master key, or the
/// error that pins down what was wrong.  A file that is too short or whose
/// version byte is unknown is corrupt; after that the tag is checked before
/// anything is decrypted, and a tag mismatch — as well as a ciphertext of
/// the wrong length under a matching tag — means the passphrase does not
/// fit the file.
pub open spec fn key_file_opens_to(pass: Seq<u8>, bytes: Seq<u8>, rounds: u32) -> Result<
    Seq<u8>,
    Error,
> {
    if bytes.len() < KEY_FILE_LEN {
        Err(Error::CorruptKeyFile)
    } else if bytes[0] != KEY_FILE_VERSION {
        Err(Error::CorruptKeyFile)
    } else {
        let iv = bytes.subrange(1, 17);
        let salt = bytes.subrange(17, 33);
        let mac = bytes.subrange(33, 65);
        let ct = bytes.subrange(65, bytes.len() as int);
        if mac != tag32(auth_key_of(pass, salt, rounds), key_file_mac_message(iv, salt, ct)) {
            Err(Error::WrongPassphrase)
        } else if bytes.len() != KEY_FILE_LEN {
            Err(Error::WrongPassphrase)
        } else {
            Ok(ctr_xor(kek_of(pass, salt, rounds), iv, ct))
        }
    }
}

/// Derive the key-encryption key and the authentication key from a
/// passphrase and a salt.
fn derive_keys(pass: &[u8], salt: &[u8], rounds: u32) -> (r: (Vec<u8>, Vec<u8>))
    requires
        rounds >= 1,
    ensures
        r.0@ == kek_of(pass@, salt@, rounds),
        r.1@ == auth_key_of(pass@, salt@, rounds),
        r.0@.len() == 32,
        r.1@.len() == 32,
{
    let derived = pbkdf2_sha512_derive(pass, salt, rounds);
    let kek = slice_to_vec(slice_subrange(derived.as_slice(), 0, 32));
    let auth = slice_to_vec(slice_subrange(derived.as_slice(), 32, 64));
    (kek, auth)
}

/// Seal `master` under `pass` into a fresh key file with the given salt and
/// counter start.
pub fn seal_key_file(pass: &[u8], salt: &[u8], iv: &[u8], master: &[u8], rounds: u32) -> (r: Vec<
    u8,
>)
    requires
        salt@.len() == SALT_LEN,
        iv@.len() == IV_LEN,
        master@.len() == KEY_LEN,
        rounds >= 1,
    ensures
        r@ == key_file_bytes(pass@, salt@, iv@, master@, rounds),
        r@.len() == KEY_FILE_LEN,
{
    let (kek, auth) = derive_keys(pass, salt, rounds);
    let ct = aes256_ctr_process(kek.as_slice(), iv, master);

    let mut message: Vec<u8> = Vec::new();
    message.push(KEY_FILE_VERSION);
    let mut iv_part = slice_to_vec(iv);
    message.append(&mut iv_part);
    let mut salt_part = slice_to_vec(salt);
    message.append(&mut salt_part);
    let mut ct_part = slice_to_vec(ct.as_slice());
    message.append(&mut ct_part);
    assert(message@ =~= key_file_mac_message(iv@, salt@, ct@));

    let mac = hmac_sha256_tag(auth.as_slice(), message.as_slice());
    proof {
        lemma_tag32(auth@, message@, mac@);
    }

    let mut out: Vec<u8> = Vec::new();
    out.push(KEY_FILE_VERSION);
    let mut iv_out = slice_to_vec(iv);
    out.append(&mut iv_out);
    let mut salt_out = slice_to_vec(salt);
    out.append(&mut salt_out);
    let mut mac_out = slice_to_vec(mac.as_slice());
    out.append(&mut mac_out);
    let mut ct_out = slice_to_vec(ct.as_slice());
    out.append(&mut ct_out);
    assert(out@ =~= key_file_bytes(pass@, salt@, iv@, master@, rounds));
    out
}

/// Open a key file under `pass` and recover the master key, or say exactly
/// why it cannot be had.  The tag is compared in constant time and checked
/// before anything is decrypted.
pub fn open_key_file(pass: &[u8], bytes: &[u8], rounds: u32) -> (r: Result<Vec<u8>, Error>)
    requires
        rounds >= 1,
    ensures
        r matches Ok(master) ==> key_file_opens_to(pass@, bytes@, rounds) == Ok::<_, Error>(
            master@,
        ) && master@.len() == KEY_LEN,
        r matches Err(e) ==> key_file_opens_to(pass@, bytes@, rounds) == Err::<Seq<u8>, _>(e),
{
    if bytes.len() < KEY_FILE_LEN {
        return Err(Error::CorruptKeyFile);
    }
    let version = bytes[0];
    if version != KEY_FILE_VERSION {
        return Err(Error::CorruptKeyFile);
    }
    let iv = slice_subrange(bytes, 1, 17);
    let salt = slice_subrange(bytes, 17, 33);
    let stored_mac = slice_subrange(bytes, 33, 65);
    let ct = slice_subrange(bytes, 65, bytes.len());

    let (kek, auth) = derive_keys(pass, salt, rounds);

    let mut message: Vec<u8> = Vec::new();
    message.push(version);
    let mut iv_part = slice_to_vec(iv);
    message.append(&mut iv_part);
    let mut salt_part = slice_to_vec(salt);
    message.append(&mut salt_part);
    let mut ct_part = slice_to_vec(ct);
    message.append(&mut ct_part);
    assert(message@ =~= key_file_mac_message(iv@, salt@, ct@));

    let mac = hmac_sha256_tag(auth.as_slice(), message.as_slice());
    proof {
        lemma_tag32(auth@, message@, mac@);
    }
    if !constant_time_eq(mac.as_slice(), stored_mac) {
        return Err(Error::WrongPassphrase);
    }
    if bytes.len() != KEY_FILE_LEN {
        return Err(Error::WrongPassphrase);
    }
    let master = aes256_ctr_process(kek.as_slice(), iv, ct);
    Ok(master)
}

/// Sealing a master key and opening the result with the same passphrase
/// gives the master key back: the tag covers exactly what was written, and
/// CTR decryption undoes CTR encryption.
pub proof fn lemma_key_file_roundtrip(
    pass: Seq<u8>,
    salt: Seq<u8>,
    iv: Seq<u8>,
    master: Seq<u8>,
    rounds: u32,
)
    requires
        salt.len() == SALT_LEN,
        iv.len() == IV_LEN,
        master.len() == KEY_LEN,
    ensures
        key_file_opens_to(pass, key_file_bytes(pass, salt, iv, master, rounds), rounds)
            == Ok::<_, Error>(master),
{
    let kek = kek_of(pass, salt, rounds);
    let ct = ctr_xor(kek, iv, master);
    let mac = tag32(auth_key_of(pass, salt, rounds), key_file_mac_message(iv, salt, ct));
    let bytes = key_file_bytes(pass, salt, iv, master, rounds);
    assert(bytes.len() == KEY_FILE_LEN);
    assert(bytes[0] == KEY_FILE_VERSION);
    assert(bytes.subrange(1, 17) =~= iv);
    assert(bytes.subrange(17, 33) =~= salt);
    assert(bytes.subrange(33, 65) =~= mac);
    assert(bytes.subrange(65, bytes.len() as int) =~= ct);
    lemma_ctr_xor_involution(kek, iv, master);
}

} // verus!
