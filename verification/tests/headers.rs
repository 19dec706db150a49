use hii_database::error::HiiError;
use hii_database::package_header::{
    EfiHiiPackageHeader, HiiEndPackageHdr, HiiPackage, HiiPackageType,
};

#[test]
fn header_encodes_length_and_type() {
    let header = EfiHiiPackageHeader::new(0x000123, HiiPackageType::Strings).unwrap();
    assert_eq!(header.to_bytes(), [0x23, 0x01, 0x00, 0x04]);
}

#[test]
fn header_decodes_what_was_encoded() {
    let bytes: [u8; 4] = [0x23, 0x01, 0x00, 0x04];
    let header = EfiHiiPackageHeader::decode(&bytes, 0);
    assert_eq!(header.length(), 0x000123);
    assert_eq!(header.get_type(), Ok(HiiPackageType::Strings));
    assert_eq!(header.to_bytes(), bytes);
}

#[test]
fn header_decodes_at_an_offset() {
    let bytes: [u8; 7] = [0xAA, 0xBB, 0xCC, 0x56, 0x34, 0x12, 0x02];
    let header = EfiHiiPackageHeader::decode(&bytes, 3);
    assert_eq!(header.length(), 0x123456);
    assert_eq!(header.get_type(), Ok(HiiPackageType::Forms));
}

#[test]
fn header_takes_the_largest_length() {
    let header = EfiHiiPackageHeader::new(0xFF_FFFF, HiiPackageType::End).unwrap();
    assert_eq!(header.to_bytes(), [0xFF, 0xFF, 0xFF, 0xDF]);
    assert_eq!(header.length(), 0xFF_FFFF);
}

#[test]
fn header_refuses_a_length_of_more_than_three_bytes() {
    let r = EfiHiiPackageHeader::new(0x100_0000, HiiPackageType::Strings);
    assert!(matches!(r, Err(HiiError::InvalidLength)));
    let r = EfiHiiPackageHeader::new(u32::MAX, HiiPackageType::Forms);
    assert!(matches!(r, Err(HiiError::InvalidLength)));
}

#[test]
fn every_named_type_has_its_tag() {
    let table: [(HiiPackageType, u8); 13] = [
        (HiiPackageType::TypeAll, 0x00),
        (HiiPackageType::TypeGuid, 0x01),
        (HiiPackageType::Forms, 0x02),
        (HiiPackageType::Strings, 0x04),
        (HiiPackageType::Fonts, 0x05),
        (HiiPackageType::Images, 0x06),
        (HiiPackageType::SimpleFonts, 0x07),
        (HiiPackageType::DevicePath, 0x08),
        (HiiPackageType::KeyboardLayout, 0x09),
        (HiiPackageType::Animations, 0x0A),
        (HiiPackageType::End, 0xDF),
        (HiiPackageType::TypeSystemBegin, 0x0E),
        (HiiPackageType::TypeSystemEnd, 0xFF),
    ];
    for (kind, tag) in table {
        assert_eq!(kind.tag(), tag);
        assert_eq!(HiiPackageType::try_from(tag), Ok(kind));
    }
}

#[test]
fn a_tag_without_a_name_is_not_recognised() {
    let mut known = 0;
    for tag in 0..=255u8 {
        match HiiPackageType::try_from(tag) {
            Ok(kind) => {
                assert_eq!(kind.tag(), tag);
                known += 1;
            }
            Err(e) => assert_eq!(e, HiiError::UnrecognizedType),
        }
    }
    assert_eq!(known, 13);
    assert_eq!(HiiPackageType::try_from(0x03), Err(HiiError::UnrecognizedType));
    assert_eq!(HiiPackageType::try_from(0xE0), Err(HiiError::UnrecognizedType));
    let header = EfiHiiPackageHeader::decode(&[4, 0, 0, 0x03], 0);
    assert_eq!(header.get_type(), Err(HiiError::UnrecognizedType));
}

#[test]
fn end_package_is_a_header_of_length_four() {
    let end = HiiEndPackageHdr::create();
    assert_eq!(end.as_slice(), &[0x04, 0x00, 0x00, 0xDF]);
    assert_eq!(end.size(), 4);
}

#[test]
fn built_package_holds_its_bytes() {
    let package = HiiPackage::new(vec![1, 2, 3, 4, 5]);
    assert_eq!(package.size(), 5);
    assert_eq!(package.to_vec(), &vec![1, 2, 3, 4, 5]);
    assert_eq!(package.as_slice(), &[1, 2, 3, 4, 5]);
    let empty = HiiPackage::new(Vec::new());
    assert_eq!(empty.size(), 0);
    assert!(empty.as_slice().is_empty());
}
