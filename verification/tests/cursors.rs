use hii_database::error::HiiError;
use hii_database::package_header::{
    DefinedStruct, HiiEndPackageHdr, HiiFontPackageHdr, HiiFormPackageHdr, HiiPackage,
    HiiPackageType, PackageHeader, UndefineHiiPackageHdr, UndefineHiiPackageIter,
    UndefineHiiPackageListIter,
};
use hii_database::package_header::build_package_list;
use uefi::Guid;

fn guid(seed: u8) -> Guid {
    let mut bytes = [0u8; 16];
    for (i, b) in bytes.iter_mut().enumerate() {
        *b = seed.wrapping_add(i as u8);
    }
    Guid::from_bytes(bytes)
}

fn list_of(seed: u8, bodies: Vec<Vec<u8>>) -> Vec<u8> {
    let packages: Vec<HiiPackage> = bodies.into_iter().map(HiiPackage::new).collect();
    build_package_list(guid(seed), &packages).unwrap()
}

fn first_packages(buf: &[u8]) -> UndefineHiiPackageIter<'_> {
    let mut lists = UndefineHiiPackageListIter::new(buf);
    lists.next().unwrap().unwrap().into_iter()
}

#[test]
fn body_of_one_end_package_yields_it_and_ends() {
    let buf = list_of(1, vec![vec![0x04, 0x00, 0x00, 0xDF]]);
    let mut packages = first_packages(&buf);
    assert_eq!(packages.size(), 4);
    assert_eq!(packages.location(), 20);
    let end = packages.next().unwrap().unwrap();
    assert_eq!(end.len(), 4);
    assert_eq!(end.as_ptr(), 20);
    assert_eq!(end.header().get_type(), Ok(HiiPackageType::End));
    assert_eq!(end.get_slice(), &[0x04, 0x00, 0x00, 0xDF]);
    assert_eq!(packages.size(), 0);
    assert_eq!(packages.location(), 24);
    assert!(matches!(packages.next(), Ok(None)));
    assert!(matches!(packages.next(), Ok(None)));
}

#[test]
fn empty_body_yields_nothing() {
    let buf = list_of(1, vec![]);
    assert_eq!(buf.len(), 20);
    let mut packages = first_packages(&buf);
    assert!(matches!(packages.next(), Ok(None)));
    assert_eq!(packages.collect().unwrap().len(), 0);
}

#[test]
fn package_lengths_add_up_to_the_body() {
    let buf = list_of(
        3,
        vec![
            vec![0x06, 0x00, 0x00, 0x02, 0x29, 0x02],
            vec![0x09, 0x00, 0x00, 0x05, 1, 0, 2, 0, 0xAA],
            vec![0x05, 0x00, 0x00, 0x77, 0x42],
            vec![0x04, 0x00, 0x00, 0xDF],
        ],
    );
    let mut lists = UndefineHiiPackageListIter::new(&buf);
    let list = lists.next().unwrap().unwrap();
    let total = list.header().package_length;
    assert_eq!(total, 44);
    let packages = list.into_iter().collect().unwrap();
    assert_eq!(packages.len(), 4);
    let sum: u32 = packages.iter().map(|p| p.len()).sum();
    assert_eq!(sum, total - 20);
    let places: Vec<usize> = packages.iter().map(|p| p.as_ptr()).collect();
    assert_eq!(places, vec![20, 26, 35, 40]);
}

#[test]
fn package_shorter_than_a_header_is_truncated() {
    let mut buf = list_of(1, vec![vec![0x04, 0x00, 0x00, 0xDF]]);
    buf.extend_from_slice(&[0x04, 0x00]);
    buf[16] = 26;
    let mut packages = first_packages(&buf);
    assert!(matches!(packages.next(), Ok(Some(_))));
    assert!(matches!(packages.next(), Err(HiiError::TruncatedBuffer)));
    assert_eq!(packages.size(), 0);
    assert!(matches!(packages.next(), Ok(None)));
}

#[test]
fn package_longer_than_what_remains_is_truncated() {
    let buf = list_of(1, vec![vec![0x04, 0x00, 0x00, 0xDF], vec![0x09, 0x00, 0x00, 0x02, 1, 2]]);
    let mut packages = first_packages(&buf);
    let first = packages.next().unwrap().unwrap();
    assert_eq!(first.len(), 4);
    assert!(matches!(packages.next(), Err(HiiError::TruncatedBuffer)));
    assert!(matches!(first_packages(&buf).collect(), Err(HiiError::TruncatedBuffer)));
}

#[test]
fn package_length_below_a_header_is_invalid() {
    for short in 0..4u8 {
        let buf = list_of(1, vec![vec![short, 0x00, 0x00, 0xDF]]);
        let mut packages = first_packages(&buf);
        assert!(matches!(packages.next(), Err(HiiError::InvalidLength)));
        assert!(matches!(packages.next(), Ok(None)));
        assert!(matches!(first_packages(&buf).collect(), Err(HiiError::InvalidLength)));
    }
}

#[test]
fn cursor_is_made_from_a_list_header_in_a_buffer() {
    let mut buf = vec![0xEE, 0xEE, 0xEE];
    buf.extend_from_slice(&list_of(9, vec![vec![0x05, 0, 0, 0x02, 7], vec![4, 0, 0, 0xDF]]));
    let mut packages = UndefineHiiPackageIter::new(&buf, 3).unwrap();
    assert_eq!(packages.location(), 23);
    assert_eq!(packages.size(), 9);
    let form = packages.next().unwrap().unwrap();
    assert_eq!(form.get_slice(), &[0x05, 0, 0, 0x02, 7]);
    let end = packages.next().unwrap().unwrap();
    assert_eq!(end.get_slice(), &[4, 0, 0, 0xDF]);
    assert!(matches!(packages.next(), Ok(None)));
}

#[test]
fn cursor_is_not_made_from_a_defective_list_header() {
    let good = list_of(9, vec![vec![4, 0, 0, 0xDF]]);
    assert!(matches!(UndefineHiiPackageIter::new(&good, 1), Err(HiiError::TruncatedBuffer)));
    assert!(matches!(UndefineHiiPackageIter::new(&good, 5), Err(HiiError::TruncatedBuffer)));
    assert!(matches!(UndefineHiiPackageIter::new(&good, 24), Err(HiiError::TruncatedBuffer)));
    assert!(matches!(UndefineHiiPackageIter::new(&good, 1000), Err(HiiError::TruncatedBuffer)));
    let mut small = good.clone();
    small[16] = 19;
    assert!(matches!(UndefineHiiPackageIter::new(&small, 0), Err(HiiError::InvalidLength)));
    let mut large = good.clone();
    large[16] = 25;
    assert!(matches!(UndefineHiiPackageIter::new(&large, 0), Err(HiiError::TruncatedBuffer)));
}

#[test]
fn package_types_have_their_names() {
    let names: [(u8, &str); 16] = [
        (0x00, "ALL"),
        (0x01, "GUID"),
        (0x02, "FORMS"),
        (0x03, "UNKNOWN"),
        (0x04, "STRINGS"),
        (0x05, "FONTS"),
        (0x06, "IMAGES"),
        (0x07, "SIMPLE_FONTS"),
        (0x08, "DEVICE_PATH"),
        (0x09, "KEYBOARD_LAYOU"),
        (0x0A, "ANIMATIONS"),
        (0x0E, "UNKNOWN"),
        (0xDF, "END"),
        (0xE0, "SYSTEM_BEGIN"),
        (0xFF, "SYSTEM_END"),
        (0x42, "UNKNOWN"),
    ];
    for (tag, name) in names {
        let buf = list_of(1, vec![vec![4, 0, 0, tag]]);
        let package = first_packages(&buf).next().unwrap().unwrap();
        assert_eq!(package.package_type(), name);
        assert_eq!(package.header().pack_type, tag);
    }
}

#[test]
fn package_is_seen_as_what_its_tag_says() {
    let buf = list_of(
        1,
        vec![
            vec![6, 0, 0, 0x02, 0x29, 0x02],
            vec![4, 0, 0, 0x04],
            vec![8, 0, 0, 0x05, 3, 0, 4, 0],
            vec![4, 0, 0, 0xDF],
            vec![4, 0, 0, 0x06],
            vec![4, 0, 0, 0x99],
        ],
    );
    let packages = first_packages(&buf).collect().unwrap();
    assert_eq!(packages.len(), 6);
    assert!(matches!(DefinedStruct::from(&packages[0]), DefinedStruct::FormPackage(_)));
    assert!(matches!(DefinedStruct::from(&packages[1]), DefinedStruct::StringPackage(_)));
    assert!(matches!(DefinedStruct::from(&packages[2]), DefinedStruct::FontPackage(_)));
    assert!(matches!(DefinedStruct::from(&packages[3]), DefinedStruct::EndPackage(_)));
    assert!(matches!(DefinedStruct::from(&packages[4]), DefinedStruct::Undefined(_)));
    assert!(matches!(DefinedStruct::from(&packages[5]), DefinedStruct::Undefined(_)));
    match DefinedStruct::from(&packages[0]) {
        DefinedStruct::FormPackage(form) => {
            assert_eq!(form.as_data(), &[0x29, 0x02]);
            assert_eq!(form.header().length(), 6);
        }
        _ => panic!("a form package was expected"),
    }
    match DefinedStruct::from(&packages[5]) {
        DefinedStruct::Undefined(package) => assert_eq!(package.as_ptr(), packages[5].as_ptr()),
        _ => panic!("an untyped package was expected"),
    }
}

#[test]
fn typed_views_keep_the_package_and_its_header() {
    let buf = list_of(1, vec![vec![8, 0, 0, 0x05, 3, 0, 4, 0], vec![4, 0, 0, 0xDF]]);
    let packages = first_packages(&buf).collect().unwrap();
    let font = HiiFontPackageHdr::from_undef(&packages[0]);
    assert_eq!(font.header().to_bytes(), [8, 0, 0, 0x05]);
    assert_eq!(font.parts.as_ptr(), 20);
    let end = HiiEndPackageHdr::from_undef(&packages[1]);
    assert_eq!(end.header().to_bytes(), [4, 0, 0, 0xDF]);
    assert_eq!(end.parts.as_ptr(), 28);
    assert_eq!(HiiFontPackageHdr::PACKAGE_TYPE, HiiPackageType::Fonts);
    assert_eq!(HiiEndPackageHdr::PACKAGE_TYPE, HiiPackageType::End);
    assert_eq!(HiiFormPackageHdr::PACKAGE_TYPE, HiiPackageType::Forms);
}

#[test]
fn font_package_states_its_glyph_counts() {
    let buf = list_of(1, vec![vec![10, 0, 0, 0x05, 0x34, 0x12, 0xCD, 0xAB, 9, 9]]);
    let package = first_packages(&buf).next().unwrap().unwrap();
    let font = HiiFontPackageHdr::from_undef(&package);
    assert_eq!(font.number_of_narrow_glyphs(), Ok(0x1234));
    assert_eq!(font.number_of_wide_glyphs(), Ok(0xABCD));
}

#[test]
fn font_package_without_room_for_its_counts_is_truncated() {
    for len in 4..8u8 {
        let mut bytes = vec![len, 0, 0, 0x05];
        bytes.resize(len as usize, 0x11);
        let buf = list_of(1, vec![bytes]);
        let package = first_packages(&buf).next().unwrap().unwrap();
        let font = HiiFontPackageHdr::from_undef(&package);
        assert_eq!(font.number_of_narrow_glyphs(), Err(HiiError::TruncatedBuffer));
        assert_eq!(font.number_of_wide_glyphs(), Err(HiiError::TruncatedBuffer));
    }
}

#[test]
fn view_is_laid_over_a_built_package() {
    let built = HiiFormPackageHdr::create(&[0x29, 0x02]).unwrap();
    let package = UndefineHiiPackageHdr::try_at(built.as_slice(), 0).unwrap();
    assert_eq!(package.as_ptr(), 0);
    assert_eq!(package.len(), 6);
    assert_eq!(package.get_slice(), built.as_slice());
    assert_eq!(package.header().get_type(), Ok(HiiPackageType::Forms));
    assert_eq!(HiiFormPackageHdr::from_undef(&package).as_data(), &[0x29, 0x02]);

    let buf = [0xEE, 4, 0, 0, 0xDF, 0xEE, 0xEE];
    let end = UndefineHiiPackageHdr::try_at(&buf, 1).unwrap();
    assert_eq!(end.as_ptr(), 1);
    assert_eq!(end.get_slice(), &[4, 0, 0, 0xDF]);
}

#[test]
fn view_is_not_laid_over_a_defective_package() {
    let buf = [6u8, 0, 0, 0x02, 0x29, 0x02];
    assert!(matches!(UndefineHiiPackageHdr::try_at(&buf, 1), Err(HiiError::TruncatedBuffer)));
    assert!(matches!(UndefineHiiPackageHdr::try_at(&buf, 3), Err(HiiError::TruncatedBuffer)));
    assert!(matches!(UndefineHiiPackageHdr::try_at(&buf, 6), Err(HiiError::TruncatedBuffer)));
    assert!(matches!(UndefineHiiPackageHdr::try_at(&buf, 7), Err(HiiError::TruncatedBuffer)));
    assert!(matches!(
        UndefineHiiPackageHdr::try_at(&buf, usize::MAX),
        Err(HiiError::TruncatedBuffer)
    ));
    assert!(matches!(UndefineHiiPackageHdr::try_at(&buf[..5], 0), Err(HiiError::TruncatedBuffer)));
    assert!(matches!(UndefineHiiPackageHdr::try_at(&[], 0), Err(HiiError::TruncatedBuffer)));
    for short in 0..4u8 {
        let bad = [short, 0, 0, 0xDF];
        assert!(matches!(UndefineHiiPackageHdr::try_at(&bad, 0), Err(HiiError::InvalidLength)));
    }
}
