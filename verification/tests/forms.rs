use hii_database::error::HiiError;
use hii_database::package_header::ifr_parse::{
    count_op_codes, is_expression_op_code, is_know_op_code, EfiIfrOpCode,
};
use hii_database::package_header::{
    build_package_list, EfiOpHeaderIter, HiiEndPackageHdr, HiiFormPackageHdr, HiiPackage,
    PackageHeader, UndefineHiiPackageListIter,
};
use uefi::Guid;

const VFR_DATA: [u8; 142] = [
    0x0E, 0xA7, 0x10, 0x66, 0xC6, 0x32, 0xDF, 0x94, 0x6D, 0x4D, 0x98, 0x4F, 0x8C, 0xBE, 0x44, 0x51,
    0x9B, 0x87, 0x02, 0x00, 0x03, 0x00, 0x01, 0x71, 0x99, 0x03, 0x93, 0x45, 0x85, 0x04, 0x4B, 0xB4,
    0x5E, 0x32, 0xEB, 0x83, 0x26, 0x04, 0x0E, 0x5C, 0x06, 0x00, 0x00, 0x00, 0x00, 0x5C, 0x06, 0x00,
    0x00, 0x01, 0x00, 0x26, 0x27, 0x0B, 0x00, 0x90, 0xAB, 0x3A, 0x3A, 0x86, 0x78, 0x2E, 0x4F, 0x88,
    0xF8, 0x59, 0x7A, 0x95, 0x1B, 0x78, 0xBC, 0x07, 0x00, 0x00, 0x00, 0x03, 0x00, 0x53, 0x79, 0x73,
    0x74, 0x65, 0x6D, 0x41, 0x63, 0x63, 0x65, 0x73, 0x73, 0x00, 0x01, 0x86, 0x01, 0x00, 0x04, 0x00,
    0x05, 0x91, 0x05, 0x00, 0x06, 0x00, 0x01, 0x00, 0x0B, 0x00, 0x00, 0x00, 0x04, 0x10, 0x00, 0x01,
    0x00, 0x09, 0x07, 0x08, 0x00, 0x00, 0x00, 0x00, 0x09, 0x07, 0x07, 0x00, 0x10, 0x00, 0x01, 0x29,
    0x02, 0x02, 0x87, 0x04, 0x00, 0x00, 0x00, 0x00, 0x29, 0x02, 0x29, 0x02, 0x29, 0x02,
];

fn in_list(package: HiiPackage) -> Vec<u8> {
    build_package_list(Guid::from_bytes([0x33; 16]), &vec![package, HiiEndPackageHdr::create()])
        .unwrap()
}

fn with_form<R>(body: &[u8], f: impl FnOnce(HiiFormPackageHdr<'_>) -> R) -> R {
    let buf = in_list(HiiFormPackageHdr::create(body).unwrap());
    let package =
        UndefineHiiPackageListIter::new(&buf).next().unwrap().unwrap().into_iter().next();
    f(HiiFormPackageHdr::from_undef(&package.unwrap().unwrap()))
}

#[test]
fn form_package_is_a_header_and_the_body() {
    let package = HiiFormPackageHdr::create(&[0x29, 0x02]).unwrap();
    assert_eq!(package.as_slice(), &[0x06, 0x00, 0x00, 0x02, 0x29, 0x02]);
    let package = HiiFormPackageHdr::create(&[]).unwrap();
    assert_eq!(package.as_slice(), &[0x04, 0x00, 0x00, 0x02]);
    let package = HiiFormPackageHdr::create(&VFR_DATA).unwrap();
    assert_eq!(package.size(), 146);
    assert_eq!(&package.as_slice()[..4], &[146, 0x00, 0x00, 0x02]);
    assert_eq!(&package.as_slice()[4..], &VFR_DATA[..]);
}

#[test]
fn form_package_beyond_the_length_field_overflows() {
    let body = vec![0u8; 0xFF_FFFF - 3];
    assert!(matches!(HiiFormPackageHdr::create(&body), Err(HiiError::LengthOverflow)));
    let body = vec![0u8; 0xFF_FFFF - 4];
    let package = HiiFormPackageHdr::create(&body).unwrap();
    assert_eq!(package.size(), 0xFF_FFFF);
    assert_eq!(&package.as_slice()[..4], &[0xFF, 0xFF, 0xFF, 0x02]);
}

#[test]
fn one_end_record_is_one_record_without_payload() {
    with_form(&[0x29, 0x02], |form| {
        assert_eq!(form.as_data(), &[0x29, 0x02]);
        let mut records = form.into_iter();
        let record = records.next().unwrap().unwrap();
        assert_eq!(record.op_code(), 0x29);
        assert_eq!(record.len(), 2);
        assert_eq!(record.scope(), 0);
        assert!(record.get_data().is_none());
        assert!(matches!(records.next(), Ok(None)));
        assert!(matches!(records.next(), Ok(None)));
        assert_eq!(form.count_op_codes(), Ok(1));
    });
}

#[test]
fn records_state_their_code_length_scope_and_payload() {
    with_form(&[0x0E, 0x85, 1, 2, 3, 0x5F, 0x03, 9, 0x29, 0x02], |form| {
        let mut records = form.into_iter();
        let first = records.next().unwrap().unwrap();
        assert_eq!(first.op_code(), 0x0E);
        assert_eq!(first.len(), 5);
        assert_eq!(first.scope(), 0x80);
        assert_eq!(first.get_data().unwrap(), &[1, 2, 3]);
        assert_eq!(records.location(), 5);
        let second = records.next().unwrap().unwrap();
        assert_eq!(second.op_code(), 0x5F);
        assert_eq!(second.len(), 3);
        assert_eq!(second.scope(), 0);
        assert_eq!(second.get_data().unwrap(), &[9]);
        let third = records.next().unwrap().unwrap();
        assert_eq!(third.op_code(), 0x29);
        assert!(third.get_data().is_none());
        assert_eq!(records.location(), 10);
        assert!(matches!(records.next(), Ok(None)));
    });
}

#[test]
fn record_with_an_unknown_code_is_walked_like_any_other() {
    with_form(&[0xF0, 0x84, 7, 8, 0x00, 0x02, 0x29, 0x02], |form| {
        let mut records = form.into_iter();
        let first = records.next().unwrap().unwrap();
        assert_eq!(first.op_code(), 0xF0);
        assert_eq!(first.get_data().unwrap(), &[7, 8]);
        assert_eq!(records.next().unwrap().unwrap().op_code(), 0x00);
        assert_eq!(records.next().unwrap().unwrap().op_code(), 0x29);
        assert!(matches!(records.next(), Ok(None)));
        assert_eq!(form.count_op_codes(), Ok(3));
        assert_eq!(count_op_codes(&form), Ok((0, 3)));
    });
}

#[test]
fn records_of_a_whole_form_are_counted() {
    with_form(&VFR_DATA, |form| {
        assert_eq!(form.count_op_codes(), Ok(13));
        assert_eq!(count_op_codes(&form), Ok((0, 13)));
        let mut records = form.into_iter();
        let mut codes: Vec<u8> = Vec::new();
        let mut bytes = 0;
        while let Some(record) = records.next().unwrap() {
            codes.push(record.op_code());
            bytes += record.len();
        }
        assert_eq!(bytes, VFR_DATA.len());
        assert_eq!(
            codes,
            vec![0x0E, 0x5C, 0x5C, 0x26, 0x01, 0x05, 0x09, 0x09, 0x29, 0x02, 0x29, 0x29, 0x29]
        );
    });
}

#[test]
fn empty_form_has_no_records() {
    with_form(&[], |form| {
        assert!(form.as_data().is_empty());
        assert!(matches!(form.into_iter().next(), Ok(None)));
        assert_eq!(form.count_op_codes(), Ok(0));
        assert_eq!(count_op_codes(&form), Ok((0, 0)));
    });
}

#[test]
fn record_shorter_than_its_two_bytes_is_invalid() {
    for len in [0x00u8, 0x01, 0x80, 0x81] {
        with_form(&[0x29, 0x02, 0x0E, len, 0x29, 0x02], |form| {
            let mut records = form.into_iter();
            assert!(matches!(records.next(), Ok(Some(_))));
            assert!(matches!(records.next(), Err(HiiError::InvalidLength)));
            assert!(matches!(records.next(), Ok(None)));
            assert_eq!(form.count_op_codes(), Err(HiiError::InvalidLength));
            assert_eq!(count_op_codes(&form), Err(HiiError::InvalidLength));
        });
    }
}

#[test]
fn record_beyond_the_body_is_truncated() {
    with_form(&[0x29, 0x02, 0x0E, 0x05, 1, 2], |form| {
        let mut records = form.into_iter();
        assert!(matches!(records.next(), Ok(Some(_))));
        assert!(matches!(records.next(), Err(HiiError::TruncatedBuffer)));
        assert_eq!(form.count_op_codes(), Err(HiiError::TruncatedBuffer));
    });
    with_form(&[0x29, 0x02, 0x0E], |form| {
        let mut records = form.into_iter();
        assert!(matches!(records.next(), Ok(Some(_))));
        assert!(matches!(records.next(), Err(HiiError::TruncatedBuffer)));
        assert_eq!(count_op_codes(&form), Err(HiiError::TruncatedBuffer));
    });
}

#[test]
fn cursor_walks_a_slice_of_records() {
    let data = [0x12u8, 0x02, 0x5E, 0x83, 0xAA];
    let mut records = EfiOpHeaderIter::from_slice(&data);
    assert_eq!(records.location(), 0);
    let first = records.next().unwrap().unwrap();
    assert_eq!(first.op_code(), 0x12);
    let second = records.next().unwrap().unwrap();
    assert_eq!(second.len(), 3);
    assert_eq!(second.scope(), 0x80);
    assert_eq!(second.get_data().unwrap(), &[0xAA]);
    assert!(matches!(records.next(), Ok(None)));
}

#[test]
fn expression_class_follows_the_table() {
    let mut expected = [false; 256];
    for code in 0x12..=0x17 {
        expected[code] = true;
    }
    for code in 0x2A..=0x2C {
        expected[code] = true;
    }
    for code in 0x2F..=0x59 {
        expected[code] = true;
    }
    for code in [0x5E, 0x20, 0x21, 0x22, 0x28, 0x60, 0x64] {
        expected[code] = true;
    }
    for code in 0..=255u8 {
        assert_eq!(is_expression_op_code(code), expected[code as usize], "code {:#x}", code);
    }
    assert!(is_expression_op_code(EfiIfrOpCode::AndOp.code()));
    assert!(!is_expression_op_code(EfiIfrOpCode::FormOp.code()));
    assert!(!is_expression_op_code(EfiIfrOpCode::EndOp.code()));
}

#[test]
fn codes_above_the_last_operator_are_set_apart() {
    assert!(!is_know_op_code(0x00));
    assert!(!is_know_op_code(0x01));
    assert!(!is_know_op_code(0x64));
    assert!(is_know_op_code(0x65));
    assert!(is_know_op_code(0xFF));
}

#[test]
fn operators_have_their_codes() {
    assert_eq!(EfiIfrOpCode::FormOp.code(), 0x01);
    assert_eq!(EfiIfrOpCode::FormSetOp.code(), 0x0E);
    assert_eq!(EfiIfrOpCode::EndOp.code(), 0x29);
    assert_eq!(EfiIfrOpCode::DefaultStoreOp.code(), 0x5C);
    assert_eq!(EfiIfrOpCode::Match2Op.code(), 0x64);
    let mut named = 0;
    for value in 0..=255u8 {
        match EfiIfrOpCode::try_from(value) {
            Ok(op) => {
                assert_eq!(op.code(), value);
                named += 1;
            }
            Err(e) => {
                assert_eq!(e, HiiError::UnrecognizedType);
                assert!(value == 0 || value > 0x64);
            }
        }
    }
    assert_eq!(named, 100);
    assert_eq!(EfiIfrOpCode::try_from(0x29), Ok(EfiIfrOpCode::EndOp));
    assert_eq!(EfiIfrOpCode::try_from(0x00), Err(HiiError::UnrecognizedType));
    assert_eq!(EfiIfrOpCode::try_from(0x65), Err(HiiError::UnrecognizedType));
}

#[test]
fn expressions_and_statements_are_counted_apart() {
    with_form(
        &[0x12, 0x02, 0x0E, 0x83, 0, 0x17, 0x02, 0x46, 0x82, 0x29, 0x02, 0x64, 0x02, 0x65, 0x02],
        |form| {
            assert_eq!(count_op_codes(&form), Ok((4, 3)));
            assert_eq!(form.count_op_codes(), Ok(7));
        },
    );
}
