use value_log::Version;

#[test]
pub fn version_serialize() -> value_log::Result<()> {
    let mut bytes = vec![];
    Version::V1.write_file_header(&mut bytes)?;
    assert_eq!(bytes, &[b'V', b'L', b'G', 0, 1]);
    Ok(())
}

#[test]
pub fn version_deserialize_success() {
    let version = Version::parse_file_header(&[b'V', b'L', b'G', 0, 1]);
    assert_eq!(version, Some(Version::V1));
}

#[test]
pub fn version_deserialize_fail() {
    let version = Version::parse_file_header(&[b'F', b'J', b'X', 0, 1]);
    assert!(version.is_none());
}

#[test]
pub fn version_serde_round_trip() {
    let mut buf = vec![];
    Version::V1.write_file_header(&mut buf).expect("can't fail");

    let version = Version::parse_file_header(&buf);
    assert_eq!(version, Some(Version::V1));
}

#[test]
pub fn version_len() {
    let mut buf = vec![];
    let size = Version::V1.write_file_header(&mut buf).expect("can't fail");
    assert_eq!(Version::len() as usize, size);
}

#[test]
fn version_header_is_appended() {
    let mut buf = vec![7u8, 8];
    let size = Version::V1.write_file_header(&mut buf).expect("can't fail");
    assert_eq!(size, 5);
    assert_eq!(buf, vec![7, 8, b'V', b'L', b'G', 0, 1]);
}

#[test]
fn version_header_too_short() {
    assert_eq!(Version::parse_file_header(&[]), None);
    assert_eq!(Version::parse_file_header(&[b'V', b'L']), None);
    assert_eq!(Version::parse_file_header(&[b'V', b'L', b'G']), None);
    assert_eq!(Version::parse_file_header(&[b'V', b'L', b'G', 0]), None);
}

#[test]
fn version_header_unknown_version() {
    assert_eq!(Version::parse_file_header(&[b'V', b'L', b'G', 0, 0]), None);
    assert_eq!(Version::parse_file_header(&[b'V', b'L', b'G', 0, 2]), None);
    assert_eq!(Version::parse_file_header(&[b'V', b'L', b'G', 1, 1]), None);
    assert_eq!(Version::parse_file_header(&[b'V', b'L', b'G', 1, 0]), None);
}

#[test]
fn version_header_ignores_what_follows() {
    let version = Version::parse_file_header(&[b'V', b'L', b'G', 0, 1, 9, 9, 9]);
    assert_eq!(version, Some(Version::V1));
}

#[test]
fn version_numbers() {
    assert_eq!(u16::from(Version::V1), 1);
    assert_eq!(Version::try_from(1u16), Ok(Version::V1));
    assert_eq!(Version::try_from(0u16), Err(()));
    assert_eq!(Version::try_from(2u16), Err(()));
    assert_eq!(Version::V1.to_string(), "1");
}
