use zhitiku_desktop::wmf::{PLACEABLE_KEY, validate_placeable_wmf, word};

fn empty_placeable_wmf() -> Vec<u8> {
    let mut bytes = Vec::new();
    bytes.extend_from_slice(&PLACEABLE_KEY.to_le_bytes());
    bytes.extend_from_slice(&0u16.to_le_bytes());
    for bound in [0i16, 0, 96, 96] {
        bytes.extend_from_slice(&bound.to_le_bytes());
    }
    bytes.extend_from_slice(&96u16.to_le_bytes());
    bytes.extend_from_slice(&0u32.to_le_bytes());
    let checksum = (0..20)
        .step_by(2)
        .fold(0u16, |sum, offset| sum ^ word(&bytes, offset));
    bytes.extend_from_slice(&checksum.to_le_bytes());
    bytes.extend_from_slice(&1u16.to_le_bytes());
    bytes.extend_from_slice(&9u16.to_le_bytes());
    bytes.extend_from_slice(&0x0300u16.to_le_bytes());
    bytes.extend_from_slice(&12u32.to_le_bytes());
    bytes.extend_from_slice(&0u16.to_le_bytes());
    bytes.extend_from_slice(&3u32.to_le_bytes());
    bytes.extend_from_slice(&0u16.to_le_bytes());
    bytes.extend_from_slice(&3u32.to_le_bytes());
    bytes.extend_from_slice(&0u16.to_le_bytes());
    bytes
}

#[test]
fn checks_bounds_checksum_and_records_before_rendering() {
    let source = empty_placeable_wmf();
    let header = validate_placeable_wmf(&source).unwrap();
    assert_eq!((header.width, header.height), (96, 96));

    let mut changed = source.clone();
    changed[20] ^= 1;
    assert!(validate_placeable_wmf(&changed).is_err());
    let mut changed = source.clone();
    changed[44] = 1;
    assert!(validate_placeable_wmf(&changed).is_err());
}

#[test]
fn short_or_odd_metafiles_are_refused() {
    assert_eq!(validate_placeable_wmf(&[0u8; 10]).unwrap_err(), "WMF 图片大小或结构无效");
    let mut source = empty_placeable_wmf();
    source.push(0);
    assert!(validate_placeable_wmf(&source).is_err());
}

#[test]
fn wrong_key_is_refused() {
    let mut source = empty_placeable_wmf();
    source[0] ^= 0xff;
    assert_eq!(validate_placeable_wmf(&source).unwrap_err(), "WMF 图片头无效");
}
