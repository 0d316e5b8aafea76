//! Tampering, truncation and key-file mutation are detected.

use seshat::{EncryptedMmapDirectory, Error};

fn store_with_file(data: &[u8]) -> (EncryptedMmapDirectory, Vec<u8>) {
    let (dir, _key_file) = EncryptedMmapDirectory::open(None, "wordpass").unwrap();
    let file = dir.atomic_write("a", data).unwrap();
    (dir, file)
}

#[test]
fn flipped_last_byte_fails_authentication() {
    let (dir, mut file) = store_with_file(&vec![0u8; 10 * 1024]);
    let last = file.len() - 1;
    file[last] ^= 1;
    let err = dir.open_read("a", &file).unwrap_err();
    assert_eq!(err, Error::AuthenticationFailed);
}

#[test]
fn any_flipped_bit_fails_authentication() {
    let (dir, file) = store_with_file(b"some content worth protecting");
    for i in 0..file.len() {
        let mut copy = file.clone();
        copy[i] ^= 0x40;
        let err = dir.open_read("a", &copy).unwrap_err();
        assert_eq!(err, Error::AuthenticationFailed, "byte {} went unnoticed", i);
    }
}

#[test]
fn truncation_fails_authentication() {
    let (dir, file) = store_with_file(&vec![0u8; 10 * 1024]);
    let mut short = file.clone();
    short.truncate(file.len() - 16);
    let err = dir.open_read("a", &short).unwrap_err();
    assert_eq!(err, Error::AuthenticationFailed);
}

#[test]
fn every_truncation_fails_authentication() {
    let (dir, file) = store_with_file(b"hello");
    for keep in 0..file.len() {
        let mut short = file.clone();
        short.truncate(keep);
        let err = dir.open_read("a", &short).unwrap_err();
        assert_eq!(err, Error::AuthenticationFailed, "length {} went unnoticed", keep);
    }
}

#[test]
fn trailing_garbage_fails_authentication() {
    let (dir, mut file) = store_with_file(b"hello");
    file.push(0);
    let err = dir.open_read("a", &file).unwrap_err();
    assert_eq!(err, Error::AuthenticationFailed);
}

#[test]
fn key_file_mutation_is_fatal() {
    let (_dir, key_file) = EncryptedMmapDirectory::open(None, "wordpass").unwrap();
    let key_file = key_file.unwrap();
    assert_eq!(key_file.len(), 97);
    for i in 0..key_file.len() {
        let mut copy = key_file.clone();
        copy[i] ^= 0x01;
        let err = EncryptedMmapDirectory::open(Some(&copy), "wordpass").unwrap_err();
        if i == 0 {
            // The version byte no longer reads 1.
            assert_eq!(err, Error::CorruptKeyFile, "byte {} went unnoticed", i);
        } else {
            // The tag no longer covers the file.
            assert_eq!(err, Error::WrongPassphrase, "byte {} went unnoticed", i);
        }
    }
}

#[test]
fn short_key_file_is_corrupt() {
    let (_dir, key_file) = EncryptedMmapDirectory::open(None, "wordpass").unwrap();
    let mut key_file = key_file.unwrap();
    key_file.truncate(50);
    let err = EncryptedMmapDirectory::open(Some(&key_file), "wordpass").unwrap_err();
    assert_eq!(err, Error::CorruptKeyFile);
}

#[test]
fn unknown_key_file_version_is_corrupt() {
    let (_dir, key_file) = EncryptedMmapDirectory::open(None, "wordpass").unwrap();
    let mut key_file = key_file.unwrap();
    key_file[0] = 2;
    let err = EncryptedMmapDirectory::open(Some(&key_file), "wordpass").unwrap_err();
    assert_eq!(err, Error::CorruptKeyFile);
}

#[test]
fn too_short_content_fails_authentication() {
    let (dir, _file) = store_with_file(b"hello");
    let err = dir.open_read("a", &[0u8; 47]).unwrap_err();
    assert_eq!(err, Error::AuthenticationFailed);
}
