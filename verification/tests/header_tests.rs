use gif_parser::header::{get_version, signature, version};
use gif_parser::model::{DecodeError, Version};

#[test]
fn header_signature_should_parse_gif() {
    assert_eq!(signature(b"GIF89a", 0), Ok(3));
}

#[test]
fn header_signature_should_fail_on_invalid_signature() {
    assert_eq!(signature(b"blablabla", 0), Err(DecodeError::TagMismatch));
}

#[test]
fn header_should_parse_version_89a() {
    assert_eq!(version(b"89a", 0), Ok((Version::GIF89a, 3)));
}

#[test]
fn header_should_parse_version_87a() {
    assert_eq!(version(b"87a", 0), Ok((Version::GIF87a, 3)));
}

#[test]
fn header_should_fail_on_unknown_version() {
    assert_eq!(version(b"12a", 0), Err(DecodeError::UnknownVersion));
}

#[test]
fn mod_should_parse_version_89a() {
    assert_eq!(get_version(b"89a"), Ok(Version::GIF89a));
}

#[test]
fn mod_should_parse_version_87a() {
    assert_eq!(get_version(b"87a"), Ok(Version::GIF87a));
}

#[test]
fn mod_should_fail_on_unknown_version() {
    assert_eq!(get_version(b"12a"), Err(DecodeError::UnknownVersion));
}
