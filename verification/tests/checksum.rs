use download_manager::checksum::{checksum_line, Sha256Stream};

#[test]
fn digest_of_nothing() {
    let hasher = Sha256Stream::new();
    let line = checksum_line(&hasher.finish());
    assert_eq!(
        line,
        "SHA256: e3b0c44298fc1c149afbf4c8996fb92427ae41e4649b934ca495991b7852b855"
    );
}

#[test]
fn digest_of_abc_fed_in_pieces() {
    let mut hasher = Sha256Stream::new();
    let buffer = [b'a', b'b', 0, 0];
    assert!(hasher.absorb(&buffer, 2));
    let buffer = [b'c', 9, 9, 9];
    assert!(hasher.absorb(&buffer, 1));
    assert!(!hasher.absorb(&buffer, 0));
    let line = checksum_line(&hasher.finish());
    assert_eq!(
        line,
        "SHA256: ba7816bf8f01cfea414140de5dae2223b00361a396177a9cb410ff61f20015ad"
    );
}
