//! The façade's own rules: the invisible key file, the idempotent writer
//! close, and repeated reads.

use rand::RngCore;
use seshat::{EncryptedMmapDirectory, Error};

#[test]
fn key_file_is_invisible() {
    let (dir, key_file) = EncryptedMmapDirectory::open(None, "wordpass").unwrap();
    let key_file = key_file.unwrap();

    assert!(!dir.path_exists("seshat-index.key", true));
    assert!(!dir.path_exists("seshat-index.key", false));
    assert!(dir.path_exists("meta.json", true));
    assert!(!dir.path_exists("meta.json", false));

    let err = dir.open_read("seshat-index.key", &key_file).unwrap_err();
    assert_eq!(err, Error::Io);
    let err = dir.atomic_read("seshat-index.key", &key_file).unwrap_err();
    assert_eq!(err, Error::Io);
    let err = dir.atomic_write("seshat-index.key", b"data").unwrap_err();
    assert_eq!(err, Error::Io);
    let err = dir.open_write("seshat-index.key").unwrap_err();
    assert_eq!(err, Error::Io);
}

#[test]
fn finalize_twice_is_a_no_op() {
    let (dir, _key_file) = EncryptedMmapDirectory::open(None, "wordpass").unwrap();
    let mut writer = dir.open_write("a").unwrap();
    writer.write(b"hello");
    writer.finalize();
    let once = writer.file_bytes().clone();
    writer.finalize();
    let twice = writer.file_bytes().clone();
    assert_eq!(once, twice);
    assert_eq!(dir.open_read("a", &twice).unwrap(), b"hello");
}

#[test]
fn unfinalized_writer_fails_authentication() {
    // A writer dropped before finalize leaves bytes that fail closed: here
    // even the finalized file of one writer is not the unfinalized state of
    // another, so reading anything shorter than the sealed file fails.
    let (dir, _key_file) = EncryptedMmapDirectory::open(None, "wordpass").unwrap();
    let mut writer = dir.open_write("a").unwrap();
    writer.write(b"hello");
    writer.finalize();
    let sealed = writer.file_bytes().clone();
    // The backing file of an interrupted writer holds a prefix of the
    // stream without its terminal tag.
    let partial = &sealed[..sealed.len() - 32];
    let err = dir.open_read("a", partial).unwrap_err();
    assert_eq!(err, Error::AuthenticationFailed);
}

#[test]
fn repeated_reads_of_large_random_files() {
    let (dir, _key_file) = EncryptedMmapDirectory::open(None, "wordpass").unwrap();
    let mut rng = rand::thread_rng();

    let names = ["one", "two", "three"];
    let mut plaintexts = Vec::new();
    let mut files = Vec::new();
    for name in names.iter() {
        let mut data = vec![0u8; 1024 * 1024];
        rng.fill_bytes(&mut data);
        let file = dir.atomic_write(name, &data).unwrap();
        plaintexts.push(data);
        files.push(file);
    }

    for _ in 0..5 {
        for ((name, file), plain) in names.iter().zip(files.iter()).zip(plaintexts.iter()) {
            let read = dir.open_read(name, file).unwrap();
            assert_eq!(&read, plain);
        }
    }
}
