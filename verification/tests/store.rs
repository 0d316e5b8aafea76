//! Round trips through the encrypted directory façade.

use seshat::{EncryptedMmapDirectory, Error};

fn new_store(passphrase: &str) -> (EncryptedMmapDirectory, Vec<u8>) {
    let (dir, key_file) = EncryptedMmapDirectory::open(None, passphrase).unwrap();
    (dir, key_file.unwrap())
}

#[test]
fn atomic_roundtrip() {
    let (dir, _key_file) = new_store("wordpass");
    let file = dir.atomic_write("a", b"hello").unwrap();
    let plain = dir.open_read("a", &file).unwrap();
    assert_eq!(plain, b"hello");
    let plain = dir.atomic_read("a", &file).unwrap();
    assert_eq!(plain, b"hello");
}

#[test]
fn empty_content_roundtrip() {
    let (dir, _key_file) = new_store("wordpass");
    let file = dir.atomic_write("a", b"").unwrap();
    assert_eq!(file.len(), 48);
    let plain = dir.open_read("a", &file).unwrap();
    assert_eq!(plain, b"");
}

#[test]
fn writer_roundtrip_across_reopen() {
    let (dir, key_file) = new_store("wordpass");
    let mut writer = dir.open_write("a").unwrap();
    writer.write(b"hel");
    writer.write(b"lo");
    writer.finalize();
    let file = writer.file_bytes().clone();
    drop(dir);

    let (dir, none) = EncryptedMmapDirectory::open(Some(&key_file), "wordpass").unwrap();
    assert!(none.is_none());
    let plain = dir.open_read("a", &file).unwrap();
    assert_eq!(plain, b"hello");
}

#[test]
fn ciphertext_is_not_plaintext() {
    let (dir, _key_file) = new_store("wordpass");
    let file = dir.atomic_write("a", b"hello").unwrap();
    assert_eq!(file.len(), 5 + 48);
    assert_ne!(&file[16..21], b"hello");
}

#[test]
fn fresh_counter_start_per_file() {
    let (dir, _key_file) = new_store("wordpass");
    let one = dir.atomic_write("a", b"same bytes").unwrap();
    let two = dir.atomic_write("b", b"same bytes").unwrap();
    assert_ne!(one[..16], two[..16]);
    assert_ne!(one, two);
}

#[test]
fn wrong_passphrase_is_rejected() {
    let (_dir, key_file) = new_store("wordpass");
    let err = EncryptedMmapDirectory::open(Some(&key_file), "password").unwrap_err();
    assert_eq!(err, Error::WrongPassphrase);
}
