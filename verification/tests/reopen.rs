//! Creating, reopening and re-keying a store.

use seshat::{EncryptedMmapDirectory, Error};

#[test]
fn encrypteddir_create_new_store_and_reopen() {
    let (dir, key_file) =
        EncryptedMmapDirectory::open(None, "wordpass").expect("Can't create a new store");
    let key_file = key_file.unwrap();
    drop(dir);
    let dir = EncryptedMmapDirectory::open(Some(&key_file), "wordpass")
        .expect("Can't open the existing store");
    drop(dir);
    let dir = EncryptedMmapDirectory::open(Some(&key_file), "password");
    assert!(
        dir.is_err(),
        "Opened an existing store with the wrong passphrase"
    );
}

#[test]
fn create_store_with_empty_passphrase() {
    let dir = EncryptedMmapDirectory::open(None, "");
    assert!(
        dir.is_err(),
        "Opened an existing store with the wrong passphrase"
    );
}

#[test]
fn change_passphrase() {
    let (dir, key_file) =
        EncryptedMmapDirectory::open(None, "wordpass").expect("Can't create a new store");
    let key_file = key_file.unwrap();

    let new_key_file =
        EncryptedMmapDirectory::change_passphrase(Some(&key_file), "wordpass", "password")
            .expect("Can't change passphrase");
    drop(dir);
    let dir = EncryptedMmapDirectory::open(Some(&new_key_file), "wordpass");
    assert!(
        dir.is_err(),
        "Opened an existing store with the old passphrase"
    );
    let _ = EncryptedMmapDirectory::open(Some(&new_key_file), "password")
        .expect("Can't open the store with the new passphrase");
}

#[test]
fn empty_passphrase_creates_nothing() {
    let err = EncryptedMmapDirectory::open(None, "").unwrap_err();
    assert_eq!(err, Error::EmptyPassphrase);
}

#[test]
fn change_passphrase_rejects_empty() {
    let (_dir, key_file) = EncryptedMmapDirectory::open(None, "wordpass").unwrap();
    let key_file = key_file.unwrap();
    let err = EncryptedMmapDirectory::change_passphrase(Some(&key_file), "", "password")
        .unwrap_err();
    assert_eq!(err, Error::EmptyPassphrase);
    let err = EncryptedMmapDirectory::change_passphrase(Some(&key_file), "wordpass", "")
        .unwrap_err();
    assert_eq!(err, Error::EmptyPassphrase);
    let err = EncryptedMmapDirectory::change_passphrase(None, "", "").unwrap_err();
    assert_eq!(err, Error::EmptyPassphrase);
    // The untouched key file still opens with the old passphrase.
    let _ = EncryptedMmapDirectory::open(Some(&key_file), "wordpass").unwrap();
}

#[test]
fn change_passphrase_without_key_file() {
    let err = EncryptedMmapDirectory::change_passphrase(None, "wordpass", "password").unwrap_err();
    assert_eq!(err, Error::KeyFileMissing);
}

#[test]
fn change_passphrase_with_wrong_old_passphrase() {
    let (_dir, key_file) = EncryptedMmapDirectory::open(None, "wordpass").unwrap();
    let key_file = key_file.unwrap();
    let err = EncryptedMmapDirectory::change_passphrase(Some(&key_file), "password", "newpass")
        .unwrap_err();
    assert_eq!(err, Error::WrongPassphrase);
}

#[test]
fn change_passphrase_keeps_content_readable() {
    let (dir, key_file) = EncryptedMmapDirectory::open(None, "wordpass").unwrap();
    let key_file = key_file.unwrap();
    let file = dir.atomic_write("a", b"hello").unwrap();

    let new_key_file =
        EncryptedMmapDirectory::change_passphrase(Some(&key_file), "wordpass", "password")
            .unwrap();
    drop(dir);

    let (dir, _) = EncryptedMmapDirectory::open(Some(&new_key_file), "password").unwrap();
    let plain = dir.open_read("a", &file).unwrap();
    assert_eq!(plain, b"hello");
}
