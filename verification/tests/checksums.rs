use app_update::checksum::{parse_sha256, same_digest};
use app_update::{AvailableUpdate, ChecksumError, Version};
use sha2::{Digest, Sha256};

#[test]
fn checksum_must_be_valid_sha256_hex() {
    let result = AvailableUpdate::new(Version::new(1, 0, 0), "bad");

    assert!(matches!(result, Err(ChecksumError::InvalidSha256(_))));
}

#[test]
fn a_checksum_is_read_in_either_case() {
    let text = "00ff".repeat(8) + &"A1b2".repeat(8);
    let bytes = parse_sha256(&text).unwrap();
    assert_eq!(bytes[..4], [0x00, 0xff, 0x00, 0xff]);
    assert_eq!(bytes[28..], [0xa1, 0xb2, 0xa1, 0xb2]);
}

#[test]
fn a_written_digest_is_read_whatever_the_case_of_its_letters() {
    let digest: [u8; 32] = Sha256::digest(b"archive").into();
    let lower = format!("{:x}", Sha256::digest(b"archive"));
    let upper = format!("{:X}", Sha256::digest(b"archive"));
    assert_ne!(lower, upper);
    assert_eq!(parse_sha256(&lower).unwrap(), digest);
    assert_eq!(parse_sha256(&upper).unwrap(), digest);
}

#[test]
fn texts_that_are_no_checksums_are_refused() {
    let cases = [
        String::new(),
        "0".repeat(63),
        "0".repeat(65),
        "g".repeat(64),
        "0".repeat(62) + "-1",
        "0".repeat(62) + " 0",
        "0".repeat(62) + "\u{e9}",
        "+a".repeat(32),
        "f+".to_string() + &"00".repeat(31),
        "+f".to_string() + &"00".repeat(31),
        format!("a\u{e9}{}", "0".repeat(61)),
        "0".repeat(61) + "\u{e9}" + "0",
        "0".repeat(60) + "\u{20ac}" + "0",
        "\u{e9}".repeat(32),
        "\u{e9}".repeat(64),
    ];
    for text in cases {
        let ChecksumError::InvalidSha256(given) = parse_sha256(&text).unwrap_err();
        assert_eq!(given, text);
    }
}

#[test]
fn a_bad_checksum_is_shown() {
    let error = AvailableUpdate::new(Version::new(1, 0, 0), "bad").unwrap_err();
    assert_eq!(error.message(), "invalid SHA-256 `bad`");
}

#[test]
fn digests_are_compared_byte_by_byte() {
    let mut other = [7; 32];
    assert!(same_digest(&[7; 32], &other));
    other[0] = 8;
    assert!(!same_digest(&[7; 32], &other));
}
