use flicker::checksum::{parse_algorithm, verify_checksum, Checksum, ChecksumAlgorithm, ChecksumError};

#[test]
fn algorithm_names() {
    assert_eq!(parse_algorithm("sha256"), Ok(ChecksumAlgorithm::Sha256));
    assert_eq!(parse_algorithm("SHA256"), Ok(ChecksumAlgorithm::Sha256));
    assert_eq!(parse_algorithm("Md5"), Ok(ChecksumAlgorithm::Md5));
    assert_eq!(
        parse_algorithm("sha1"),
        Err(ChecksumError::UnsupportedAlgorithm("sha1".to_string()))
    );
}

#[test]
fn sha256_of_abc_in_chunks() {
    let mut c = Checksum::new(ChecksumAlgorithm::Sha256);
    c.update(b"a");
    c.update(b"");
    c.update(b"bc");
    assert_eq!(
        c.finalize_hex(),
        "ba7816bf8f01cfea414140de5dae2223b00361a396177a9cb410ff61f20015ad"
    );
}

#[test]
fn md5_of_abc_and_empty() {
    let mut c = Checksum::new(ChecksumAlgorithm::Md5);
    c.update(b"abc");
    assert_eq!(c.finalize_hex(), "900150983cd24fb0d6963f7d28e17f72");
    let c = Checksum::new(ChecksumAlgorithm::Md5);
    assert_eq!(c.finalize_hex(), "d41d8cd98f00b204e9800998ecf8427e");
}

#[test]
fn checksum_comparison_ignores_case() {
    let h = "ba7816bf8f01cfea414140de5dae2223b00361a396177a9cb410ff61f20015ad";
    assert_eq!(verify_checksum(Some(&h.to_uppercase()), h), Ok(()));
    assert_eq!(verify_checksum(None, h), Ok(()));
    assert_eq!(verify_checksum(Some("00"), h), Err(ChecksumError::Mismatch));
}
