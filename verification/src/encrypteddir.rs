//! The encrypted directory façade: the passphrase-derived key hierarchy,
//! the handle that holds the working keys, and the content operations the
//! index layer sees.
//!
//! The façade works on plain values.  The caller reads the key file and the
//! content files from the backing directory and hands their bytes in; what
//! comes back is either plaintext, or ciphertext to be written, or the
//! exact error.  The key file itself is invisible through the façade: a
//! request for it by name is answered as if the file did not exist.

use vstd::prelude::*;
use vstd::string::StringSliceAdditionalSpecFns;
use vstd::utf8::encode_utf8_decode_utf8;

use crate::codec::{content_opens_to, open_content, seal_content, sealed_bytes, MIN_CONTENT_LEN};
use crate::ct::bytes_eq;
use crate::error::Error;
use crate::keyfile::{
    key_file_bytes, key_file_opens_to, lemma_key_file_roundtrip, open_key_file, seal_key_file,
    IV_LEN, KEY_FILE_LEN, KEY_LEN, SALT_LEN,
};
use crate::prims::{hkdf_sha512, hkdf_sha512_expand, random_bytes};

verus! {

/// The PBKDF2 iteration count used for every key file this library writes.
pub const PBKDF_ROUNDS: u32 = 10_000;

/// The name under which the key file rests inside the directory.
pub open spec fn key_file_name() -> Seq<char> {
    "seshat-index.key"@
}

/// The data key: the first 32 of the 64 bytes HKDF expands from the master
/// key.
pub open spec fn data_key_of(master: Seq<u8>) -> Seq<u8> {
    hkdf_sha512(master).subrange(0, 32)
}

/// The MAC key: the last 32 of the 64 bytes HKDF expands from the master
/// key.
pub open spec fn mac_key_of(master: Seq<u8>) -> Seq<u8> {
    hkdf_sha512(master).subrange(32, 64)
}

/// What reading a content file through a store whose key file is
/// `key_file` yields under `pass`: the key-file error if the store cannot
/// be opened at all, otherwise whatever the content codec makes of the
/// bytes under the expanded working keys.
pub open spec fn store_read(
    pass: Seq<u8>,
    key_file: Seq<u8>,
    content: Seq<u8>,
    rounds: u32,
) -> Result<Seq<u8>, Error> {
    match key_file_opens_to(pass, key_file, rounds) {
        Ok(master) => content_opens_to(data_key_of(master), mac_key_of(master), content),
        Err(e) => Err(e),
    }
}

/// The key file `bytes` opens under `pass` to some master key, and
/// `handle` holds exactly the working keys expanded from it.
pub open spec fn handle_opens(pass: Seq<u8>, bytes: Seq<u8>, handle: EncryptedMmapDirectory) -> bool {
    match key_file_opens_to(pass, bytes, PBKDF_ROUNDS) {
        Ok(master) => handle.keyed_by(master),
        Err(_) => false,
    }
}

/// Both key files open to one and the same master key, the old one under
/// the old passphrase and the new one under the new.
pub open spec fn reseal_ok(
    old_pass: Seq<u8>,
    old_bytes: Seq<u8>,
    new_pass: Seq<u8>,
    new_bytes: Seq<u8>,
) -> bool {
    match key_file_opens_to(old_pass, old_bytes, PBKDF_ROUNDS) {
        Ok(master) => key_file_opens_to(new_pass, new_bytes, PBKDF_ROUNDS) == Ok::<_, Error>(
            master,
        ),
        Err(_) => false,
    }
}

/// Does `path` name the key file?
pub fn is_key_file_name(path: &str) -> (r: bool)
    ensures
        r <==> path@ == key_file_name(),
{
    let name: &str = "seshat-index.key";
    let r = bytes_eq(path.as_bytes(), name.as_bytes());
    proof {
        if path.spec_bytes() == name.spec_bytes() {
            encode_utf8_decode_utf8(path@);
            encode_utf8_decode_utf8(name@);
        }
    }
    r
}

/// A directory handle: the working keys expanded from the master key.  The
/// passphrase itself is not retained.
#[derive(Clone, Debug)]
pub struct EncryptedMmapDirectory {
    encryption_key: Vec<u8>,
    mac_key: Vec<u8>,
}

/// The streaming writer for one content file: plaintext is appended, and
/// the sealed file exists once the writer is finalized.
#[derive(Debug)]
pub struct AesFile {
    encryption_key: Vec<u8>,
    mac_key: Vec<u8>,
    iv: Vec<u8>,
    buffer: Vec<u8>,
    output: Vec<u8>,
    finalized: bool,
}

impl EncryptedMmapDirectory {
    /// The data key this handle encrypts content with.
    pub closed spec fn data_key(self) -> Seq<u8> {
        self.encryption_key@
    }

    /// The MAC key this handle authenticates content with.
    pub closed spec fn auth_key(self) -> Seq<u8> {
        self.mac_key@
    }

    /// The handle is usable: its data key has the AES-256 key length.
    pub closed spec fn wf(self) -> bool {
        self.encryption_key@.len() == KEY_LEN
    }

    /// The handle holds exactly the working keys expanded from `master`.
    pub open spec fn keyed_by(self, master: Seq<u8>) -> bool {
        self.data_key() == data_key_of(master) && self.auth_key() == mac_key_of(master)
    }

    /// Open a store.  `key_file` holds the bytes of the directory's key
    /// file, or `None` if the directory has none yet; in the latter case a
    /// fresh store is created and the second half of the result is the new
    /// key file for the caller to write.  An empty passphrase is rejected
    /// before anything else is looked at.
    pub fn open(key_file: Option<&[u8]>, passphrase: &str) -> (r: Result<
        (EncryptedMmapDirectory, Option<Vec<u8>>),
        Error,
    >)
        ensures
            r == Err::<(EncryptedMmapDirectory, Option<Vec<u8>>), Error>(Error::EmptyPassphrase)
                <==> passphrase.spec_bytes().len() == 0,
            r matches Ok(p) ==> p.0.wf() && match key_file {
                Some(b) => p.1 is None && handle_opens(passphrase.spec_bytes(), b@, p.0),
                None => match p.1 {
                    Some(f) => f@.len() == KEY_FILE_LEN && handle_opens(
                        passphrase.spec_bytes(),
                        f@,
                        p.0,
                    ),
                    None => false,
                },
            },
            r matches Err(e) ==> (passphrase.spec_bytes().len() > 0 ==> match key_file {
                Some(b) => key_file_opens_to(passphrase.spec_bytes(), b@, PBKDF_ROUNDS) == Err::<
                    Seq<u8>,
                    _,
                >(e),
                None => e == Error::RandomnessUnavailable,
            }),
    {
        let pass = passphrase.as_bytes();
        if pass.len() == 0 {
            return Err(Error::EmptyPassphrase);
        }
        match key_file {
            Some(bytes) => {
                let master = match open_key_file(pass, bytes, PBKDF_ROUNDS) {
                    Ok(m) => m,
                    Err(e) => {
                        return Err(e);
                    },
                };
                let handle = Self::expand_store_key(master.as_slice());
                Ok((handle, None))
            },
            None => {
                let salt = match random_bytes(SALT_LEN) {
                    Ok(v) => v,
                    Err(e) => {
                        return Err(e);
                    },
                };
                let iv = match random_bytes(IV_LEN) {
                    Ok(v) => v,
                    Err(e) => {
                        return Err(e);
                    },
                };
                let master = match random_bytes(KEY_LEN) {
                    Ok(v) => v,
                    Err(e) => {
                        return Err(e);
                    },
                };
                let file = seal_key_file(
                    pass,
                    salt.as_slice(),
                    iv.as_slice(),
                    master.as_slice(),
                    PBKDF_ROUNDS,
                );
                proof {
                    lemma_key_file_roundtrip(pass@, salt@, iv@, master@, PBKDF_ROUNDS);
                }
                let handle = Self::expand_store_key(master.as_slice());
                Ok((handle, Some(file)))
            },
        }
    }

    /// Re-encrypt the key file under a new passphrase.  The master key is
    /// loaded with the old passphrase and sealed again, unchanged, with
    /// fresh salt and counter start under the new one; the result is the
    /// replacement key file for the caller to write.  Both passphrases
    /// must be non-empty, and a store without a key file has nothing to
    /// rewrite.
    pub fn change_passphrase(key_file: Option<&[u8]>, old: &str, new: &str) -> (r: Result<
        Vec<u8>,
        Error,
    >)
        ensures
            r == Err::<Vec<u8>, Error>(Error::EmptyPassphrase) <==> (old.spec_bytes().len() == 0
                || new.spec_bytes().len() == 0),
            old.spec_bytes().len() > 0 && new.spec_bytes().len() > 0 ==> (r == Err::<
                Vec<u8>,
                Error,
            >(Error::KeyFileMissing) <==> key_file is None),
            r matches Ok(f) ==> match key_file {
                Some(b) => f@.len() == KEY_FILE_LEN && reseal_ok(
                    old.spec_bytes(),
                    b@,
                    new.spec_bytes(),
                    f@,
                ),
                None => false,
            },
            r matches Err(e) ==> (e != Error::RandomnessUnavailable && old.spec_bytes().len() > 0
                && new.spec_bytes().len() > 0 ==> match key_file {
                Some(b) => key_file_opens_to(old.spec_bytes(), b@, PBKDF_ROUNDS) == Err::<
                    Seq<u8>,
                    _,
                >(e),
                None => e == Error::KeyFileMissing,
            }),
            r == Err::<Vec<u8>, Error>(Error::RandomnessUnavailable) ==> match key_file {
                Some(b) => key_file_opens_to(old.spec_bytes(), b@, PBKDF_ROUNDS) is Ok,
                None => false,
            },
    {
        let old_pass = old.as_bytes();
        let new_pass = new.as_bytes();
        if old_pass.len() == 0 || new_pass.len() == 0 {
            return Err(Error::EmptyPassphrase);
        }
        let bytes = match key_file {
            Some(b) => b,
            None => {
                return Err(Error::KeyFileMissing);
            },
        };
        let master = match open_key_file(old_pass, bytes, PBKDF_ROUNDS) {
            Ok(m) => m,
            Err(e) => {
                return Err(e);
            },
        };
        let salt = match random_bytes(SALT_LEN) {
            Ok(v) => v,
            Err(e) => {
                return Err(e);
            },
        };
        let iv = match random_bytes(IV_LEN) {
            Ok(v) => v,
            Err(e) => {
                return Err(e);
            },
        };
        let file = seal_key_file(
            new_pass,
            salt.as_slice(),
            iv.as_slice(),
            master.as_slice(),
            PBKDF_ROUNDS,
        );
        proof {
            lemma_key_file_roundtrip(new_pass@, salt@, iv@, master@, PBKDF_ROUNDS);
        }
        Ok(file)
    }

    /// Expand the master key into the two working keys, and hold them in a
    /// fresh handle.
    fn expand_store_key(master: &[u8]) -> (r: EncryptedMmapDirectory)
        ensures
            r.wf(),
            r.keyed_by(master@),
    {
        let expanded = hkdf_sha512_expand(master);
        let encryption_key = vstd::slice::slice_to_vec(
            vstd::slice::slice_subrange(expanded.as_slice(), 0, 32),
        );
        let mac_key = vstd::slice::slice_to_vec(
            vstd::slice::slice_subrange(expanded.as_slice(), 32, 64),
        );
        EncryptedMmapDirectory { encryption_key, mac_key }
    }

    /// Decrypt and verify a whole content file read from the backing
    /// directory.  A request for the key file by name is answered as if
    /// the file did not exist, whatever bytes were handed in.
    pub fn open_read(&self, path: &str, ciphertext: &[u8]) -> (r: Result<Vec<u8>, Error>)
        requires
            self.wf(),
        ensures
            path@ == key_file_name() ==> r == Err::<Vec<u8>, Error>(Error::Io),
            path@ != key_file_name() ==> {
                &&& r matches Ok(plain) ==> content_opens_to(
                    self.data_key(),
                    self.auth_key(),
                    ciphertext@,
                ) == Ok::<_, Error>(plain@)
                &&& r matches Err(e) ==> content_opens_to(
                    self.data_key(),
                    self.auth_key(),
                    ciphertext@,
                ) == Err::<Seq<u8>, _>(e)
            },
    {
        if is_key_file_name(path) {
            return Err(Error::Io);
        }
        open_content(self.encryption_key.as_slice(), self.mac_key.as_slice(), ciphertext)
    }

    /// As `open_read`, for the atomic-read path: the backing directory
    /// guarantees the bytes are those of a completely written file, and
    /// the decryption is the same.
    pub fn atomic_read(&self, path: &str, ciphertext: &[u8]) -> (r: Result<Vec<u8>, Error>)
        requires
            self.wf(),
        ensures
            path@ == key_file_name() ==> r == Err::<Vec<u8>, Error>(Error::Io),
            path@ != key_file_name() ==> {
                &&& r matches Ok(plain) ==> content_opens_to(
                    self.data_key(),
                    self.auth_key(),
                    ciphertext@,
                ) == Ok::<_, Error>(plain@)
                &&& r matches Err(e) ==> content_opens_to(
                    self.data_key(),
                    self.auth_key(),
                    ciphertext@,
                ) == Err::<Seq<u8>, _>(e)
            },
    {
        self.open_read(path, ciphertext)
    }

    /// Encrypt a whole buffer into a fresh content file for the backing
    /// directory's atomic-write path.  The key file cannot be written
    /// through the façade.
    pub fn atomic_write(&self, path: &str, data: &[u8]) -> (r: Result<Vec<u8>, Error>)
        requires
            self.wf(),
            data@.len() + MIN_CONTENT_LEN <= usize::MAX,
        ensures
            path@ == key_file_name() ==> r == Err::<Vec<u8>, Error>(Error::Io),
            path@ != key_file_name() ==> {
                &&& r matches Ok(f) ==> f@ == sealed_bytes(
                    self.data_key(),
                    self.auth_key(),
                    f@.subrange(0, IV_LEN as int),
                    data@,
                ) && content_opens_to(self.data_key(), self.auth_key(), f@) == Ok::<_, Error>(
                    data@,
                )
                &&& r matches Err(e) ==> e == Error::RandomnessUnavailable
            },
    {
        if is_key_file_name(path) {
            return Err(Error::Io);
        }
        let iv = match random_bytes(IV_LEN) {
            Ok(v) => v,
            Err(e) => {
                return Err(e);
            },
        };
        let file = seal_content(
            self.encryption_key.as_slice(),
            self.mac_key.as_slice(),
            iv.as_slice(),
            data,
        );
        proof {
            crate::codec::lemma_content_roundtrip(self.data_key(), self.auth_key(), iv@, data@);
            assert(file@.subrange(0, IV_LEN as int) =~= iv@);
        }
        Ok(file)
    }

    /// Start a streaming write of one content file.  The key file cannot
    /// be written through the façade.
    pub fn open_write(&self, path: &str) -> (r: Result<AesFile, Error>)
        requires
            self.wf(),
        ensures
            path@ == key_file_name() ==> r == Err::<AesFile, Error>(Error::Io),
            path@ != key_file_name() ==> {
                &&& r matches Ok(w) ==> w.wf() && w.data_key() == self.data_key() && w.auth_key()
                    == self.auth_key() && w.plaintext() == Seq::<u8>::empty() && !w.finalized()
                &&& r matches Err(e) ==> e == Error::RandomnessUnavailable
            },
    {
        if is_key_file_name(path) {
            return Err(Error::Io);
        }
        let iv = match random_bytes(IV_LEN) {
            Ok(v) => v,
            Err(e) => {
                return Err(e);
            },
        };
        Ok(
            AesFile {
                encryption_key: self.encryption_key.clone(),
                mac_key: self.mac_key.clone(),
                iv,
                buffer: Vec::new(),
                output: Vec::new(),
                finalized: false,
            },
        )
    }

    /// Whether a path exists through the façade: the backing directory's
    /// answer, except that the key file is invisible.
    pub fn path_exists(&self, path: &str, backing_exists: bool) -> (r: bool)
        ensures
            r <==> (backing_exists && path@ != key_file_name()),
    {
        !is_key_file_name(path) && backing_exists
    }
}

impl AesFile {
    /// The data key this writer encrypts with.
    pub closed spec fn data_key(self) -> Seq<u8> {
        self.encryption_key@
    }

    /// The MAC key this writer authenticates with.
    pub closed spec fn auth_key(self) -> Seq<u8> {
        self.mac_key@
    }

    /// The counter start chosen for this file.
    pub closed spec fn iv(self) -> Seq<u8> {
        self.iv@
    }

    /// The plaintext appended so far.
    pub closed spec fn plaintext(self) -> Seq<u8> {
        self.buffer@
    }

    /// Whether the writer has been finalized.
    pub closed spec fn finalized(self) -> bool {
        self.finalized
    }

    /// The sealed file; meaningful once the writer is finalized.
    pub closed spec fn file(self) -> Seq<u8> {
        self.output@
    }

    /// The writer is usable: the keys and counter start have their
    /// lengths, the plaintext leaves room for the header and the tag, and
    /// once finalized the output is the sealed file.
    pub closed spec fn wf(self) -> bool {
        &&& self.encryption_key@.len() == KEY_LEN
        &&& self.iv@.len() == IV_LEN
        &&& self.buffer@.len() + MIN_CONTENT_LEN <= usize::MAX
        &&& self.finalized ==> self.output@ == sealed_bytes(
            self.encryption_key@,
            self.mac_key@,
            self.iv@,
            self.buffer@,
        )
    }

    /// Append plaintext.  The writer buffers it; nothing is sealed yet.
    pub fn write(&mut self, data: &[u8]) -> (n: usize)
        requires
            old(self).wf(),
            !old(self).finalized(),
            old(self).plaintext().len() + data@.len() + MIN_CONTENT_LEN <= usize::MAX,
        ensures
            final(self).wf(),
            !final(self).finalized(),
            final(self).plaintext() == old(self).plaintext() + data@,
            final(self).data_key() == old(self).data_key(),
            final(self).auth_key() == old(self).auth_key(),
            final(self).iv() == old(self).iv(),
            n == data@.len(),
    {
        let mut tail = vstd::slice::slice_to_vec(data);
        self.buffer.append(&mut tail);
        data.len()
    }

    /// An intermediate flush: drains nothing and, deliberately, does not
    /// finalize — the terminal tag is written by `finalize` alone.
    pub fn flush(&mut self)
        requires
            old(self).wf(),
        ensures
            *final(self) == *old(self),
    {
    }

    /// Seal the file: encrypt the buffered plaintext and append the
    /// terminal tag.  Finalizing an already-finalized writer changes
    /// nothing.
    pub fn finalize(&mut self)
        requires
            old(self).wf(),
        ensures
            final(self).wf(),
            final(self).finalized(),
            final(self).plaintext() == old(self).plaintext(),
            final(self).data_key() == old(self).data_key(),
            final(self).auth_key() == old(self).auth_key(),
            final(self).iv() == old(self).iv(),
            final(self).file() == sealed_bytes(
                old(self).data_key(),
                old(self).auth_key(),
                old(self).iv(),
                old(self).plaintext(),
            ),
            old(self).finalized() ==> *final(self) == *old(self),
            content_opens_to(final(self).data_key(), final(self).auth_key(), final(self).file())
                == Ok::<_, Error>(old(self).plaintext()),
    {
        proof {
            crate::codec::lemma_content_roundtrip(
                old(self).data_key(),
                old(self).auth_key(),
                old(self).iv(),
                old(self).plaintext(),
            );
        }
        if self.finalized {
            return ;
        }
        let sealed = seal_content(
            self.encryption_key.as_slice(),
            self.mac_key.as_slice(),
            self.iv.as_slice(),
            self.buffer.as_slice(),
        );
        self.output = sealed;
        self.finalized = true;
    }

    /// The sealed file, to be handed to the backing directory.
    pub fn file_bytes(&self) -> (r: &Vec<u8>)
        requires
            self.wf(),
            self.finalized(),
        ensures
            r@ == self.file(),
    {
        &self.output
    }
}

/// A finalized streaming writer holds one authenticated file that
/// decrypts, under the keys it was opened with, to exactly the bytes
/// appended in order.
pub proof fn lemma_writer_roundtrip(w: AesFile)
    requires
        w.wf(),
        w.finalized(),
    ensures
        content_opens_to(w.data_key(), w.auth_key(), w.file()) == Ok::<_, Error>(w.plaintext()),
{
    crate::codec::lemma_content_roundtrip(w.data_key(), w.auth_key(), w.iv(), w.plaintext());
}

/// Writing a byte string through the store and reading it back under the
/// same passphrase yields exactly that byte string, whatever salts and
/// counter starts were drawn.
pub proof fn lemma_store_roundtrip(
    pass: Seq<u8>,
    salt: Seq<u8>,
    key_iv: Seq<u8>,
    master: Seq<u8>,
    content_iv: Seq<u8>,
    plain: Seq<u8>,
    rounds: u32,
)
    requires
        salt.len() == SALT_LEN,
        key_iv.len() == IV_LEN,
        master.len() == KEY_LEN,
        content_iv.len() == IV_LEN,
    ensures
        store_read(
            pass,
            key_file_bytes(pass, salt, key_iv, master, rounds),
            sealed_bytes(data_key_of(master), mac_key_of(master), content_iv, plain),
            rounds,
        ) == Ok::<_, Error>(plain),
{
    lemma_key_file_roundtrip(pass, salt, key_iv, master, rounds);
    crate::codec::lemma_content_roundtrip(
        data_key_of(master),
        mac_key_of(master),
        content_iv,
        plain,
    );
}

/// A successful passphrase change is lossless: the old key file under the
/// old passphrase and the new key file under the new passphrase open to
/// the same master key, so every content file reads identically through
/// either.
pub proof fn lemma_passphrase_change_lossless(
    old_pass: Seq<u8>,
    old_file: Seq<u8>,
    new_pass: Seq<u8>,
    new_file: Seq<u8>,
    master: Seq<u8>,
    content: Seq<u8>,
    rounds: u32,
)
    requires
        key_file_opens_to(old_pass, old_file, rounds) == Ok::<_, Error>(master),
        key_file_opens_to(new_pass, new_file, rounds) == Ok::<_, Error>(master),
    ensures
        store_read(new_pass, new_file, content, rounds) == store_read(
            old_pass,
            old_file,
            content,
            rounds,
        ),
{
}

} // verus!
