use hii_database::error::HiiError;
use hii_database::package_header::{
    build_package_list, EfiHiiPackageListHeader, HiiEndPackageHdr, HiiFontPackageHdr,
    HiiFormPackageHdr, HiiPackage, HiiPackageType, HiiStringPackageHdr,
    UndefineHiiPackageListIter,
};
use uefi::{CString16, Guid};

fn guid(seed: u8) -> Guid {
    let mut bytes = [0u8; 16];
    for (i, b) in bytes.iter_mut().enumerate() {
        *b = seed.wrapping_mul(17).wrapping_add(i as u8);
    }
    Guid::from_bytes(bytes)
}

fn sample_packages() -> Vec<HiiPackage> {
    vec![
        HiiFormPackageHdr::create(&[0x0E, 0x84, 1, 2, 0x29, 0x02]).unwrap(),
        HiiStringPackageHdr::create(
            "en-US".to_string(),
            vec![CString16::try_from("One").unwrap(), CString16::try_from("Two").unwrap()],
        )
        .unwrap(),
        HiiPackage::new(vec![8, 0, 0, 0x05, 1, 0, 2, 0]),
        HiiFormPackageHdr::create(&[0x29, 0x02]).unwrap(),
        HiiEndPackageHdr::create(),
    ]
}

#[test]
fn list_is_the_header_and_the_packages() {
    let id = Guid::from_bytes([
        0x10, 0x11, 0x12, 0x13, 0x14, 0x15, 0x16, 0x17, 0x18, 0x19, 0x1A, 0x1B, 0x1C, 0x1D, 0x1E,
        0x1F,
    ]);
    let packages = vec![HiiFormPackageHdr::create(&[0x29, 0x02]).unwrap(), HiiEndPackageHdr::create()];
    let list = build_package_list(id, &packages).unwrap();
    assert_eq!(
        list,
        vec![
            0x10, 0x11, 0x12, 0x13, 0x14, 0x15, 0x16, 0x17, 0x18, 0x19, 0x1A, 0x1B, 0x1C, 0x1D,
            0x1E, 0x1F, 30, 0, 0, 0, 6, 0, 0, 0x02, 0x29, 0x02, 4, 0, 0, 0xDF
        ]
    );
}

#[test]
fn list_without_packages_is_its_header() {
    let list = build_package_list(Guid::from_bytes([0xAB; 16]), &Vec::new()).unwrap();
    let mut expected = vec![0xABu8; 16];
    expected.extend_from_slice(&[20, 0, 0, 0]);
    assert_eq!(list, expected);
    let mut lists = UndefineHiiPackageListIter::new(&list);
    let view = lists.next().unwrap().unwrap();
    assert_eq!(view.header().package_length, 20);
    assert!(matches!(view.into_iter().next(), Ok(None)));
    assert!(matches!(lists.next(), Ok(None)));
}

#[test]
fn built_list_is_read_back_package_by_package() {
    let id = guid(5);
    let supplied = sample_packages();
    let buf = build_package_list(id, &supplied).unwrap();
    let mut lists = UndefineHiiPackageListIter::new(&buf);
    let list = lists.next().unwrap().unwrap();
    assert!(matches!(lists.next(), Ok(None)));
    assert_eq!(list.as_ptr(), 0);
    let header = list.header();
    assert_eq!(header.package_list_guid, id);
    assert_eq!(header.package_length as usize, buf.len());
    assert_eq!(header.to_bytes(), &buf[..20]);
    let found = list.into_iter().collect().unwrap();
    assert_eq!(found.len(), supplied.len());
    for (read, built) in found.iter().zip(supplied.iter()) {
        assert_eq!(read.get_slice(), built.as_slice());
        assert_eq!(read.header().pack_type, built.as_slice()[3]);
        assert_eq!(&read.get_slice()[4..], &built.as_slice()[4..]);
        assert_eq!(read.len() as usize, built.size());
    }
    let sum: usize = found.iter().map(|p| p.len() as usize).sum();
    assert_eq!(sum, header.package_length as usize - 20);
}

#[test]
fn lists_are_walked_one_after_the_other() {
    let first = build_package_list(guid(1), &sample_packages()).unwrap();
    let second = build_package_list(guid(2), &vec![HiiEndPackageHdr::create()]).unwrap();
    let third = build_package_list(guid(3), &Vec::new()).unwrap();
    let mut buf = first.clone();
    buf.extend_from_slice(&second);
    buf.extend_from_slice(&third);
    let mut lists = UndefineHiiPackageListIter::new(&buf);
    assert_eq!(lists.size(), buf.len());
    let a = lists.next().unwrap().unwrap();
    assert_eq!(a.as_ptr(), 0);
    assert_eq!(a.header().package_list_guid, guid(1));
    assert_eq!(lists.location(), first.len());
    let b = lists.next().unwrap().unwrap();
    assert_eq!(b.as_ptr(), first.len());
    assert_eq!(b.header().package_list_guid, guid(2));
    assert_eq!(b.header().package_length, 24);
    let c = lists.next().unwrap().unwrap();
    assert_eq!(c.as_ptr(), first.len() + 24);
    assert_eq!(c.header().package_length, 20);
    assert_eq!(lists.size(), 0);
    assert!(matches!(lists.next(), Ok(None)));
    let all = UndefineHiiPackageListIter::new(&buf).collect().unwrap();
    assert_eq!(all.len(), 3);
    assert_eq!(all[1].into_iter().collect().unwrap().len(), 1);
    assert_eq!(all[0].into_iter().collect().unwrap().len(), 5);
}

#[test]
fn empty_database_has_no_lists() {
    let buf: [u8; 0] = [];
    let mut lists = UndefineHiiPackageListIter::new(&buf);
    assert!(matches!(lists.next(), Ok(None)));
    assert_eq!(UndefineHiiPackageListIter::new(&buf).collect().unwrap().len(), 0);
    assert!(UndefineHiiPackageListIter::new(&buf).find(&guid(1)).is_none());
}

#[test]
fn list_that_claims_more_than_remains_is_truncated() {
    let mut buf = build_package_list(guid(1), &vec![HiiEndPackageHdr::create()]).unwrap();
    let whole = buf.len();
    buf.extend_from_slice(&build_package_list(guid(2), &sample_packages()).unwrap());
    buf.truncate(buf.len() - 1);
    let mut lists = UndefineHiiPackageListIter::new(&buf);
    assert!(matches!(lists.next(), Ok(Some(_))));
    assert_eq!(lists.location(), whole);
    assert!(matches!(lists.next(), Err(HiiError::TruncatedBuffer)));
    assert_eq!(lists.location(), whole);
    assert_eq!(lists.size(), 0);
    assert!(matches!(lists.next(), Ok(None)));
    assert!(matches!(
        UndefineHiiPackageListIter::new(&buf).collect(),
        Err(HiiError::TruncatedBuffer)
    ));
}

#[test]
fn list_header_that_does_not_fit_is_truncated() {
    let buf = [0u8; 19];
    assert!(matches!(
        UndefineHiiPackageListIter::new(&buf).next(),
        Err(HiiError::TruncatedBuffer)
    ));
}

#[test]
fn list_size_below_a_header_is_invalid() {
    for size in [0u8, 1, 19] {
        let mut buf = vec![0u8; 24];
        buf[16] = size;
        let mut lists = UndefineHiiPackageListIter::new(&buf);
        assert!(matches!(lists.next(), Err(HiiError::InvalidLength)));
        assert!(matches!(lists.next(), Ok(None)));
    }
}

#[test]
fn list_is_found_by_its_identifier() {
    let mut buf = build_package_list(guid(1), &vec![HiiEndPackageHdr::create()]).unwrap();
    let at = buf.len();
    buf.extend_from_slice(&build_package_list(guid(2), &sample_packages()).unwrap());
    let again = buf.len();
    buf.extend_from_slice(&build_package_list(guid(2), &Vec::new()).unwrap());
    let lists = UndefineHiiPackageListIter::new(&buf);
    let found = lists.find(&guid(2)).unwrap();
    assert_eq!(found.as_ptr(), at);
    assert_ne!(found.as_ptr(), again);
    assert_eq!(found.header().package_list_guid, guid(2));
    assert_eq!(lists.find(&guid(1)).unwrap().as_ptr(), 0);
    assert!(lists.find(&guid(3)).is_none());
}

#[test]
fn search_for_a_list_stops_at_a_defect() {
    let mut buf = build_package_list(guid(1), &Vec::new()).unwrap();
    let mut broken = build_package_list(guid(2), &Vec::new()).unwrap();
    broken[16] = 3;
    buf.extend_from_slice(&broken);
    buf.extend_from_slice(&build_package_list(guid(4), &Vec::new()).unwrap());
    let lists = UndefineHiiPackageListIter::new(&buf);
    assert!(lists.find(&guid(1)).is_some());
    assert!(lists.find(&guid(4)).is_none());
}

#[test]
fn packages_of_one_type_are_picked_out() {
    let buf = build_package_list(guid(9), &sample_packages()).unwrap();
    let list = UndefineHiiPackageListIter::new(&buf).next().unwrap().unwrap();
    let forms = list.get_package::<HiiFormPackageHdr>().unwrap();
    assert_eq!(forms.len(), 2);
    assert_eq!(forms[0].as_data(), &[0x0E, 0x84, 1, 2, 0x29, 0x02]);
    assert_eq!(forms[1].as_data(), &[0x29, 0x02]);
    let strings = list.get_package::<HiiStringPackageHdr>().unwrap();
    assert_eq!(strings.len(), 1);
    assert_eq!(strings[0].count_strings(), Ok(2));
    let fonts = list.get_package::<HiiFontPackageHdr>().unwrap();
    assert_eq!(fonts.len(), 1);
    assert_eq!(fonts[0].number_of_wide_glyphs(), Ok(2));
    let ends = list.get_package::<HiiEndPackageHdr>().unwrap();
    assert_eq!(ends.len(), 1);
    assert_eq!(ends[0].parts.header().get_type(), Ok(HiiPackageType::End));
}

#[test]
fn picking_out_packages_reports_a_defect() {
    let mut packages = sample_packages();
    packages.push(HiiPackage::new(vec![9, 0, 0, 0x02]));
    let buf = build_package_list(guid(9), &packages).unwrap();
    let list = UndefineHiiPackageListIter::new(&buf).next().unwrap().unwrap();
    assert!(matches!(list.get_package::<HiiFormPackageHdr>(), Err(HiiError::TruncatedBuffer)));
}

#[test]
fn list_header_is_written_and_read() {
    let header = EfiHiiPackageListHeader { package_list_guid: guid(3), package_length: 0x01020304 };
    let bytes = header.to_bytes();
    assert_eq!(bytes.len(), 20);
    assert_eq!(&bytes[..16], &guid(3).to_bytes());
    assert_eq!(&bytes[16..], &[0x04, 0x03, 0x02, 0x01]);
    let mut buf = vec![0xEE, 0xEE];
    buf.extend_from_slice(&bytes);
    let read = EfiHiiPackageListHeader::decode(&buf, 2);
    assert_eq!(read.package_list_guid, guid(3));
    assert_eq!(read.package_length, 0x01020304);
}

#[test]
fn default_list_header_is_all_zero() {
    let header = EfiHiiPackageListHeader::default();
    assert_eq!(header.package_list_guid.to_bytes(), [0u8; 16]);
    assert_eq!(header.package_length, 0);
    assert_eq!(header.to_bytes(), vec![0u8; 20]);
}
