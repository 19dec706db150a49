//! Packages: the header that every package starts with, the known package
//! types, the cursor over the packages of one package list, and packages that
//! were built rather than read.
pub mod package_list;
pub mod types;

pub use package_list::{
    build_package_list, EfiHiiPackageListHeader, UndefineHiiPackageListHeader,
    UndefineHiiPackageListIter,
};
pub use types::ifr_parse;
pub use types::{
    EfiHiiSibt, EfiOpHeader, EfiOpHeaderIter, HiiEndPackageHdr, HiiFontPackageHdr,
    HiiFormPackageHdr, HiiStringBlockIter, HiiStringPackageHdr, UndefineHiiPackageHdr,
    UndefineHiiStringBlock,
};

use vstd::prelude::*;
use crate::error::HiiError;
use uefi::CStr8;
use crate::package_header::types::string_package::{
    lemma_nth_string_terminated, string_header_size, string_in_package, string_language,
};
use crate::text::{
    cstr8_bytes, is_terminated, language_bytes, requested_language, ucs2_text, HiiString,
};
use crate::records::{
    lemma_concat_push, lemma_prepend_push, lemma_take_push, prepend, total_len,
};
use crate::wire::{read_u24, read_u32, u24_at, u24_bytes, u32_at};

verus! {

/// Number of bytes of a package header: three for the length, one for the type.
pub const PACKAGE_HEADER_SIZE: usize = 4;

/// The largest value that the length field of a package header can hold.
pub const MAX_PACKAGE_LENGTH: u32 = 0xFF_FFFF;

/// The header of a package: the length of the whole package, header included,
/// as three bytes with the least significant first, and the type tag.
#[derive(Clone, Copy, Debug)]
pub struct EfiHiiPackageHeader {
    pub length: [u8; 3],
    pub pack_type: u8,
}

impl EfiHiiPackageHeader {
    /// The four bytes of the header as they stand in a buffer.
    pub open spec fn spec_bytes(self) -> Seq<u8> {
        seq![self.length[0], self.length[1], self.length[2], self.pack_type]
    }

    /// The length that the header states.
    pub open spec fn spec_length(self) -> int {
        u24_at(self.spec_bytes(), 0)
    }

    /// The header that the four bytes at `at` hold.
    pub open spec fn spec_decode(s: Seq<u8>, at: int) -> EfiHiiPackageHeader {
        EfiHiiPackageHeader { length: [s[at], s[at + 1], s[at + 2]], pack_type: s[at + 3] }
    }

    /// A header that states `length` and `pack_type`, or `InvalidLength` when
    /// `length` does not fit in three bytes.
    pub fn new(length: u32, pack_type: HiiPackageType) -> (r: Result<Self, HiiError>)
        ensures
            length > MAX_PACKAGE_LENGTH ==> r == Err::<Self, HiiError>(HiiError::InvalidLength),
            length <= MAX_PACKAGE_LENGTH ==> r is Ok && r->Ok_0.spec_bytes() == u24_bytes(
                length as int,
            ).push(pack_type.spec_tag()) && r->Ok_0.spec_length() == length,
    {
        if length > MAX_PACKAGE_LENGTH {
            return Err(HiiError::InvalidLength);
        }
        let header = Self {
            length: [
                (length % 0x100) as u8,
                (length / 0x100 % 0x100) as u8,
                (length / 0x1_0000 % 0x100) as u8,
            ],
            pack_type: pack_type.tag(),
        };
        proof {
            assert(header.spec_bytes() =~= u24_bytes(length as int).push(pack_type.spec_tag()));
            crate::wire::lemma_read_written(length as int);
            assert(header.spec_bytes().subrange(0, 3) =~= u24_bytes(length as int));
        }
        Ok(header)
    }

    /// The header that the four bytes of `buf` at `at` hold.
    pub fn decode(buf: &[u8], at: usize) -> (r: Self)
        requires
            at + PACKAGE_HEADER_SIZE <= buf@.len(),
        ensures
            r == Self::spec_decode(buf@, at as int),
            r.spec_bytes() == buf@.subrange(at as int, at + 4),
            r.spec_length() == u24_at(buf@, at as int),
    {
        let header = Self { length: [buf[at], buf[at + 1], buf[at + 2]], pack_type: buf[at + 3] };
        proof {
            assert(header.spec_bytes() =~= buf@.subrange(at as int, at + 4));
        }
        header
    }

    /// The length that the header states: that of the package, header included.
    pub fn length(&self) -> (r: u32)
        ensures
            r == self.spec_length(),
            r <= MAX_PACKAGE_LENGTH,
    {
        let b0: u32 = self.length[0] as u32;
        let b1: u32 = self.length[1] as u32;
        let b2: u32 = self.length[2] as u32;
        b0 + 0x100 * b1 + 0x1_0000 * b2
    }

    /// The package type that the tag names, or `UnrecognizedType` when the tag
    /// is none of the known constants.
    pub fn get_type(&self) -> (r: Result<HiiPackageType, HiiError>)
        ensures
            r == HiiPackageType::spec_try_from(self.pack_type),
    {
        HiiPackageType::try_from(self.pack_type)
    }

    /// The four bytes of the header as they stand in a buffer.
    pub fn to_bytes(&self) -> (r: [u8; 4])
        ensures
            r@ == self.spec_bytes(),
    {
        let byte_array: [u8; 4] = [self.length[0], self.length[1], self.length[2], self.pack_type];
        assert(byte_array@ =~= self.spec_bytes());
        byte_array
    }
}

/// A header is read back as it was written: the four bytes that a header for
/// `length` and `pack_type` is written as hold a header that states that
/// length and the tag of that type, and the tag names the type.
pub proof fn lemma_header_round_trip(length: int, pack_type: HiiPackageType)
    requires
        0 <= length <= MAX_PACKAGE_LENGTH,
    ensures
        ({
            let bytes = u24_bytes(length).push(pack_type.spec_tag());
            let header = EfiHiiPackageHeader::spec_decode(bytes, 0);
            &&& header.spec_bytes() == bytes
            &&& header.spec_length() == length
            &&& header.pack_type == pack_type.spec_tag()
            &&& HiiPackageType::spec_try_from(header.pack_type) == Ok::<HiiPackageType, HiiError>(
                pack_type,
            )
        }),
{
    let bytes = u24_bytes(length).push(pack_type.spec_tag());
    let header = EfiHiiPackageHeader::spec_decode(bytes, 0);
    crate::wire::lemma_read_written(length);
    assert(header.spec_bytes() =~= bytes);
    assert(bytes.subrange(0, 3) =~= u24_bytes(length));
}

/// The package types that have a name.
#[derive(Debug, Clone, Copy, PartialEq, Eq, Structural)]
pub enum HiiPackageType {
    TypeAll,
    TypeGuid,
    Forms,
    Strings,
    Fonts,
    Images,
    SimpleFonts,
    DevicePath,
    KeyboardLayout,
    Animations,
    End,
    TypeSystemBegin,
    TypeSystemEnd,
}

impl HiiPackageType {
    /// The tag byte that stands for the type in a package header.
    pub open spec fn spec_tag(self) -> u8 {
        match self {
            HiiPackageType::TypeAll => 0x00,
            HiiPackageType::TypeGuid => 0x01,
            HiiPackageType::Forms => 0x02,
            HiiPackageType::Strings => 0x04,
            HiiPackageType::Fonts => 0x05,
            HiiPackageType::Images => 0x06,
            HiiPackageType::SimpleFonts => 0x07,
            HiiPackageType::DevicePath => 0x08,
            HiiPackageType::KeyboardLayout => 0x09,
            HiiPackageType::Animations => 0x0A,
            HiiPackageType::End => 0xDF,
            HiiPackageType::TypeSystemBegin => 0x0E,
            HiiPackageType::TypeSystemEnd => 0xFF,
        }
    }

    /// The type that a tag byte names, if it names one.
    pub open spec fn spec_try_from(orig: u8) -> Result<HiiPackageType, HiiError> {
        if orig == 0x00 {
            Ok(HiiPackageType::TypeAll)
        } else if orig == 0x01 {
            Ok(HiiPackageType::TypeGuid)
        } else if orig == 0x02 {
            Ok(HiiPackageType::Forms)
        } else if orig == 0x04 {
            Ok(HiiPackageType::Strings)
        } else if orig == 0x05 {
            Ok(HiiPackageType::Fonts)
        } else if orig == 0x06 {
            Ok(HiiPackageType::Images)
        } else if orig == 0x07 {
            Ok(HiiPackageType::SimpleFonts)
        } else if orig == 0x08 {
            Ok(HiiPackageType::DevicePath)
        } else if orig == 0x09 {
            Ok(HiiPackageType::KeyboardLayout)
        } else if orig == 0x0A {
            Ok(HiiPackageType::Animations)
        } else if orig == 0xDF {
            Ok(HiiPackageType::End)
        } else if orig == 0x0E {
            Ok(HiiPackageType::TypeSystemBegin)
        } else if orig == 0xFF {
            Ok(HiiPackageType::TypeSystemEnd)
        } else {
            Err(HiiError::UnrecognizedType)
        }
    }

    /// The tag byte that stands for the type in a package header.
    pub fn tag(self) -> (r: u8)
        ensures
            r == self.spec_tag(),
    {
        match self {
            HiiPackageType::TypeAll => 0x00,
            HiiPackageType::TypeGuid => 0x01,
            HiiPackageType::Forms => 0x02,
            HiiPackageType::Strings => 0x04,
            HiiPackageType::Fonts => 0x05,
            HiiPackageType::Images => 0x06,
            HiiPackageType::SimpleFonts => 0x07,
            HiiPackageType::DevicePath => 0x08,
            HiiPackageType::KeyboardLayout => 0x09,
            HiiPackageType::Animations => 0x0A,
            HiiPackageType::End => 0xDF,
            HiiPackageType::TypeSystemBegin => 0x0E,
            HiiPackageType::TypeSystemEnd => 0xFF,
        }
    }

    /// The type that a tag byte names, or `UnrecognizedType` when it names none.
    pub fn try_from(orig: u8) -> (r: Result<Self, HiiError>)
        ensures
            r == Self::spec_try_from(orig),
    {
        match orig {
            0x00 => Ok(HiiPackageType::TypeAll),
            0x01 => Ok(HiiPackageType::TypeGuid),
            0x02 => Ok(HiiPackageType::Forms),
            0x04 => Ok(HiiPackageType::Strings),
            0x05 => Ok(HiiPackageType::Fonts),
            0x06 => Ok(HiiPackageType::Images),
            0x07 => Ok(HiiPackageType::SimpleFonts),
            0x08 => Ok(HiiPackageType::DevicePath),
            0x09 => Ok(HiiPackageType::KeyboardLayout),
            0x0A => Ok(HiiPackageType::Animations),
            0xDF => Ok(HiiPackageType::End),
            0x0E => Ok(HiiPackageType::TypeSystemBegin),
            0xFF => Ok(HiiPackageType::TypeSystemEnd),
            _ => Err(HiiError::UnrecognizedType),
        }
    }

    /// A tag names a type exactly when it is that type's tag.
    pub proof fn lemma_tag_names_type(orig: u8, t: HiiPackageType)
        ensures
            Self::spec_try_from(orig) == Ok::<HiiPackageType, HiiError>(t) <==> t.spec_tag() == orig,
    {
    }
}

/// The bytes of a package that was built: header and body.
pub struct HiiPackage(Vec<u8>);

impl View for HiiPackage {
    type V = Seq<u8>;

    closed spec fn view(&self) -> Seq<u8> {
        self.0@
    }
}

impl HiiPackage {
    /// Whether the bytes are one whole package: they start with a header, and
    /// the length that it states is the number of bytes.
    pub open spec fn is_package(self) -> bool {
        is_package_bytes(self@)
    }

    /// The package made of `data`.
    pub fn new(data: Vec<u8>) -> (r: Self)
        ensures
            r@ == data@,
    {
        Self(data)
    }

    /// The number of bytes of the package.
    pub fn size(&self) -> (r: usize)
        ensures
            r == self@.len(),
    {
        self.0.len()
    }

    /// The bytes of the package.
    pub fn to_vec(&self) -> (r: &Vec<u8>)
        ensures
            r@ == self@,
    {
        &self.0
    }

    /// The bytes of the package.
    pub fn as_slice(&self) -> (r: &[u8])
        ensures
            r@ == self@,
    {
        self.0.as_slice()
    }
}

/// Whether `s` is one whole package: it starts with a header, and the length
/// that the header states is the length of `s`.
pub open spec fn is_package_bytes(s: Seq<u8>) -> bool {
    s.len() >= 4 && u24_at(s, 0) == s.len()
}

/// What stands at the front of the bytes that remain of a package list's body:
/// nothing (`Ok(None)`), a package of the length given, or a defect.
///
/// A package needs the four bytes of its header; the length that the header
/// states covers at least the header and at most what remains.
pub open spec fn package_step(rem: Seq<u8>) -> Result<Option<int>, HiiError> {
    if rem.len() == 0 {
        Ok(None)
    } else if rem.len() < 4 {
        Err(HiiError::TruncatedBuffer)
    } else if u24_at(rem, 0) < 4 {
        Err(HiiError::InvalidLength)
    } else if u24_at(rem, 0) > rem.len() {
        Err(HiiError::TruncatedBuffer)
    } else {
        Ok(Some(u24_at(rem, 0)))
    }
}

/// The packages that the body of a package list is made of, each as its bytes
/// and in the order in which they stand, or the first defect that a walk from
/// the front meets.
pub open spec fn parse_packages(rem: Seq<u8>) -> Result<Seq<Seq<u8>>, HiiError>
    decreases rem.len(),
{
    match package_step(rem) {
        Ok(None) => Ok(Seq::empty()),
        Ok(Some(len)) => prepend(seq![rem.take(len)], parse_packages(rem.skip(len))),
        Err(e) => Err(e),
    }
}

/// The sum of the lengths that the headers of `packages` state.
pub open spec fn total_stated_len(packages: Seq<Seq<u8>>) -> int
    decreases packages.len(),
{
    if packages.len() == 0 {
        0
    } else {
        u24_at(packages[0], 0) + total_stated_len(packages.skip(1))
    }
}

/// The packages that a walk finds in a body fill the body: each is a whole
/// package, and the lengths that their headers state add up to the length of
/// the body.
pub proof fn lemma_packages_fill_body(body: Seq<u8>)
    requires
        parse_packages(body) is Ok,
    ensures
        forall|i: int|
            0 <= i < parse_packages(body)->Ok_0.len() ==> is_package_bytes(
                #[trigger] parse_packages(body)->Ok_0[i],
            ),
        total_stated_len(parse_packages(body)->Ok_0) == body.len(),
        total_len(parse_packages(body)->Ok_0) == body.len(),
    decreases body.len(),
{
    match package_step(body) {
        Ok(Some(len)) => {
            let first = body.take(len);
            let rest = parse_packages(body.skip(len))->Ok_0;
            lemma_packages_fill_body(body.skip(len));
            let all = parse_packages(body)->Ok_0;
            assert(all =~= seq![first] + rest);
            assert(all.skip(1) =~= rest);
            assert(u24_at(first, 0) == u24_at(body, 0));
            assert forall|i: int| 0 <= i < all.len() implies is_package_bytes(
                #[trigger] all[i],
            ) by {
                if i > 0 {
                    assert(all[i] == rest[i - 1]);
                }
            }
        },
        _ => {},
    }
}

/// The size that the header of the package list at position `at` of `s`
/// states, provided that the header lies in `s`, and that the size covers at
/// least the header and at most what follows `at`.
pub open spec fn list_size_at(s: Seq<u8>, at: int) -> Result<int, HiiError> {
    if at + 20 > s.len() {
        Err(HiiError::TruncatedBuffer)
    } else if u32_at(s, at + 16) < 20 {
        Err(HiiError::InvalidLength)
    } else if at + u32_at(s, at + 16) > s.len() {
        Err(HiiError::TruncatedBuffer)
    } else {
        Ok(u32_at(s, at + 16))
    }
}

/// A cursor over the packages of one package list.
///
/// It holds the buffer, the position of the next package and the number of
/// bytes of the list's body that remain from there. Its value as a sequence of
/// bytes, `self@`, is what remains.
#[derive(Clone, Copy)]
pub struct UndefineHiiPackageIter<'a> {
    pub(crate) buf: &'a [u8],
    pub(crate) location: usize,
    pub(crate) size: usize,
}

impl<'a> View for UndefineHiiPackageIter<'a> {
    type V = Seq<u8>;

    open spec fn view(&self) -> Seq<u8> {
        self.buffer().subrange(self.position(), self.position() + self.remaining())
    }
}

impl<'a> UndefineHiiPackageIter<'a> {
    /// The buffer that the cursor walks.
    pub closed spec fn buffer(self) -> Seq<u8> {
        self.buf@
    }

    /// The position of the next package in the buffer.
    pub closed spec fn position(self) -> int {
        self.location as int
    }

    /// The number of bytes that remain.
    pub closed spec fn remaining(self) -> int {
        self.size as int
    }

    /// What remains lies inside the buffer.
    pub open spec fn wf(self) -> bool {
        0 <= self.position() && 0 <= self.remaining() && self.position() + self.remaining()
            <= self.buffer().len()
    }

    /// The cursor over the `size` bytes of `buf` that start at `location`.
    pub(crate) fn over(buf: &'a [u8], location: usize, size: usize) -> (r: Self)
        requires
            location + size <= buf@.len(),
        ensures
            r.wf(),
            r.buffer() == buf@,
            r.position() == location,
            r.remaining() == size,
    {
        Self { buf, location, size }
    }

    /// The cursor over the packages of the package list that starts at `start`
    /// in `buf`; or what is wrong with the header of that list.
    pub fn new(buf: &'a [u8], start: usize) -> (r: Result<Self, HiiError>)
        ensures
            match list_size_at(buf@, start as int) {
                Ok(total) => {
                    &&& r matches Ok(cursor)
                    &&& cursor.wf()
                    &&& cursor.buffer() == buf@
                    &&& cursor.position() == start + 20
                    &&& cursor.remaining() == total - 20
                    &&& cursor@ == buf@.subrange(start + 20, start + total)
                },
                Err(e) => r matches Err(f) && f == e,
            },
    {
        let end: usize = buf.len();
        if start > end || end - start < 20 {
            return Err(HiiError::TruncatedBuffer);
        }
        let total: usize = read_u32(buf, start + 16) as usize;
        if total < 20 {
            return Err(HiiError::InvalidLength);
        }
        if total > end - start {
            return Err(HiiError::TruncatedBuffer);
        }
        Ok(Self { buf, location: start + 20, size: total - 20 })
    }

    /// The position of the next package in the buffer.
    pub fn location(&self) -> (r: usize)
        ensures
            r == self.position(),
    {
        self.location
    }

    /// The number of bytes that remain to be walked.
    pub fn size(&self) -> (r: usize)
        ensures
            r == self.remaining(),
    {
        self.size
    }

    /// Yields the next package and moves past it.
    ///
    /// At the end of the body it yields `None`. A package that does not fit
    /// into what remains, or whose stated length is below that of a header, is
    /// reported, and the cursor then stands at the end.
    pub fn next(&mut self) -> (r: Result<Option<UndefineHiiPackageHdr<'a>>, HiiError>)
        requires
            old(self).wf(),
        ensures
            final(self).wf(),
            final(self).buffer() == old(self).buffer(),
            match package_step(old(self)@) {
                Ok(Some(len)) => {
                    &&& r matches Ok(Some(p))
                    &&& p.wf()
                    &&& p.buffer() == old(self).buffer()
                    &&& p.position() == old(self).position()
                    &&& p.spec_len() == len
                    &&& p@ == old(self)@.take(len)
                    &&& final(self).position() == old(self).position() + len
                    &&& final(self).remaining() == old(self).remaining() - len
                    &&& final(self)@ == old(self)@.skip(len)
                },
                Ok(None) => {
                    &&& r matches Ok(None)
                    &&& final(self).position() == old(self).position()
                    &&& final(self).remaining() == 0
                },
                Err(e) => {
                    &&& r matches Err(f)
                    &&& f == e
                    &&& final(self).position() == old(self).position()
                    &&& final(self).remaining() == 0
                },
            },
    {
        if self.size == 0 {
            return Ok(None);
        }
        proof {
            crate::wire::lemma_len_fits(self.buf);
        }
        if self.size < PACKAGE_HEADER_SIZE {
            self.size = 0;
            return Err(HiiError::TruncatedBuffer);
        }
        let len: usize = read_u24(self.buf, self.location) as usize;
        assert(u24_at(old(self)@, 0) == len);
        if len < PACKAGE_HEADER_SIZE {
            self.size = 0;
            return Err(HiiError::InvalidLength);
        }
        if len > self.size {
            self.size = 0;
            return Err(HiiError::TruncatedBuffer);
        }
        let package = UndefineHiiPackageHdr::at(self.buf, self.location);
        self.location = self.location + len;
        self.size = self.size - len;
        proof {
            assert(package@ =~= old(self)@.take(len as int));
            assert(self@ =~= old(self)@.skip(len as int));
        }
        Ok(Some(package))
    }

    /// Walks to the end and gathers the packages.
    ///
    /// The result is the packages of `parse_packages`, each as a view into the
    /// buffer, or the first defect.
    pub fn collect(self) -> (r: Result<Vec<UndefineHiiPackageHdr<'a>>, HiiError>)
        requires
            self.wf(),
        ensures
            match parse_packages(self@) {
                Ok(packages) => {
                    &&& r matches Ok(found)
                    &&& found@.len() == packages.len()
                    &&& forall|i: int|
                        0 <= i < found@.len() ==> {
                            &&& (#[trigger] found@[i]).wf()
                            &&& found@[i].buffer() == self.buffer()
                            &&& found@[i].position() == self.position() + total_len(
                                packages.take(i),
                            )
                            &&& found@[i]@ == packages[i]
                        }
                },
                Err(e) => r matches Err(f) && f == e,
            },
    {
        let mut cursor = self;
        let mut found: Vec<UndefineHiiPackageHdr<'a>> = Vec::new();
        let ghost mut seen: Seq<Seq<u8>> = Seq::empty();
        loop
            invariant
                cursor.wf(),
                cursor.buffer() == self.buffer(),
                parse_packages(self@) == prepend(seen, parse_packages(cursor@)),
                found@.len() == seen.len(),
                cursor.position() == self.position() + total_len(seen),
                forall|i: int|
                    0 <= i < found@.len() ==> {
                        &&& (#[trigger] found@[i]).wf()
                        &&& found@[i].buffer() == self.buffer()
                        &&& found@[i].position() == self.position() + total_len(seen.take(i))
                        &&& found@[i]@ == seen[i]
                    },
            decreases cursor.remaining(),
        {
            match cursor.next() {
                Ok(Some(package)) => {
                    proof {
                        lemma_concat_push(seen, package@);
                        assert(seen.take(seen.len() as int) =~= seen);
                        assert forall|i: int| 0 <= i <= seen.len() implies #[trigger] seen.push(
                            package@,
                        ).take(i) == seen.take(i) by {
                            lemma_take_push(seen, package@, i);
                        }
                        lemma_prepend_push(seen, package@, parse_packages(cursor@));
                        seen = seen.push(package@);
                    }
                    found.push(package);
                },
                Ok(None) => {
                    proof {
                        assert(seen + Seq::<Seq<u8>>::empty() =~= seen);
                    }
                    return Ok(found);
                },
                Err(e) => {
                    return Err(e);
                },
            }
        }
    }
}

/// A view of a package as one of a given type.
///
/// The view is laid over an untyped package without looking at it; the
/// accessors of each type say what they do with a package that is too short.
pub trait PackageHeader<'a>: Sized {
    /// The package type that the view is for.
    const PACKAGE_TYPE: HiiPackageType;

    /// The package that the view is of.
    spec fn parts(&self) -> UndefineHiiPackageHdr<'a>;

    /// The view of `pack_head` as a package of this type.
    fn from_undef(pack_head: &UndefineHiiPackageHdr<'a>) -> (r: Self)
        ensures
            r.parts() == *pack_head,
    ;

    /// The header of the package.
    fn header(&self) -> (r: EfiHiiPackageHeader)
        ensures
            r == self.parts().spec_header(),
    ;
}

/// A package seen as what its type tag says it is.
pub enum DefinedStruct<'a> {
    /// A form package, tag `0x02`.
    FormPackage(HiiFormPackageHdr<'a>),
    /// A string package, tag `0x04`.
    StringPackage(HiiStringPackageHdr<'a>),
    /// A font package, tag `0x05`.
    FontPackage(HiiFontPackageHdr<'a>),
    /// An end package, tag `0xDF`.
    EndPackage(HiiEndPackageHdr<'a>),
    /// A package with any other tag.
    Undefined(UndefineHiiPackageHdr<'a>),
}

impl<'a> DefinedStruct<'a> {
    /// The view of `item` that its type tag selects; a tag that selects none
    /// leaves the package untyped.
    pub open spec fn of(item: UndefineHiiPackageHdr<'a>) -> DefinedStruct<'a> {
        let tag = item.spec_header().pack_type;
        if tag == HiiPackageType::Forms.spec_tag() {
            DefinedStruct::FormPackage(HiiFormPackageHdr { parts: item })
        } else if tag == HiiPackageType::Strings.spec_tag() {
            DefinedStruct::StringPackage(HiiStringPackageHdr { parts: item })
        } else if tag == HiiPackageType::Fonts.spec_tag() {
            DefinedStruct::FontPackage(HiiFontPackageHdr { parts: item })
        } else if tag == HiiPackageType::End.spec_tag() {
            DefinedStruct::EndPackage(HiiEndPackageHdr { parts: item })
        } else {
            DefinedStruct::Undefined(item)
        }
    }
}

impl<'a> From<&UndefineHiiPackageHdr<'a>> for DefinedStruct<'a> {
    /// The view of `item` that its type tag selects.
    fn from(item: &UndefineHiiPackageHdr<'a>) -> (r: Self) {
        match item.header().get_type() {
            Ok(HiiPackageType::Forms) => DefinedStruct::FormPackage(
                HiiFormPackageHdr::from_undef(item),
            ),
            Ok(HiiPackageType::Strings) => DefinedStruct::StringPackage(
                HiiStringPackageHdr::from_undef(item),
            ),
            Ok(HiiPackageType::Fonts) => DefinedStruct::FontPackage(
                HiiFontPackageHdr::from_undef(item),
            ),
            Ok(HiiPackageType::End) => DefinedStruct::EndPackage(
                HiiEndPackageHdr::from_undef(item),
            ),
            _ => DefinedStruct::Undefined(*item),
        }
    }
}

impl<'a> vstd::std_specs::convert::FromSpecImpl<&UndefineHiiPackageHdr<'a>> for DefinedStruct<'a> {
    open spec fn obeys_from_spec() -> bool {
        true
    }

    open spec fn from_spec(item: &UndefineHiiPackageHdr<'a>) -> Self {
        DefinedStruct::of(*item)
    }
}

/// Whether the package `p` is a string package in the language `language`.
pub open spec fn is_string_package_in(p: Seq<u8>, language: Seq<u8>) -> bool {
    p[3] == HiiPackageType::Strings.spec_tag() && string_language(p) == Ok::<Seq<u8>, HiiError>(
        language,
    )
}

/// String number `id`, counted from zero, of the first string package in the
/// language `language` among the packages in `rem`.
///
/// `None` when a walk from the front ends or fails before it meets such a
/// package, and when that package has no string of that number. Later
/// packages in the same language are not looked at.
pub open spec fn string_in_list(rem: Seq<u8>, language: Seq<u8>, id: nat) -> Option<Seq<u16>>
    decreases rem.len(),
{
    match package_step(rem) {
        Ok(Some(len)) => if is_string_package_in(rem.take(len), language) {
            string_in_package(rem.take(len), language, id)
        } else {
            string_in_list(rem.skip(len), language, id)
        },
        _ => None,
    }
}

/// Every string that a lookup in a list finds ends with the only zero unit
/// among its code units.
pub proof fn lemma_string_in_list_terminated(rem: Seq<u8>, language: Seq<u8>, id: nat)
    ensures
        string_in_list(rem, language, id) matches Some(units) ==> is_terminated(units),
    decreases rem.len(),
{
    match package_step(rem) {
        Ok(Some(len)) => {
            if is_string_package_in(rem.take(len), language) {
                match string_header_size(rem.take(len)) {
                    Ok(size) => {
                        lemma_nth_string_terminated(rem.take(len).skip(size), id);
                    },
                    Err(_) => {},
                }
            } else {
                lemma_string_in_list_terminated(rem.skip(len), language, id);
            }
        },
        _ => {},
    }
}

impl<'a> UndefineHiiPackageIter<'a> {
    /// The code units of string number `string_id`, counted from zero, with
    /// the zero unit at their end, from the first string package in the
    /// language `language` that the cursor has before it.
    ///
    /// `None` stands for "not found": no such package before the end of the
    /// list or before a defect, or no string of that number in it.
    pub fn get_units(&self, string_id: u16, language: &[u8]) -> (r: Option<Vec<u16>>)
        requires
            self.wf(),
        ensures
            match string_in_list(self@, language@, string_id as nat) {
                Some(units) => r matches Some(found) && found@ == units,
                None => r is None,
            },
    {
        let mut cursor = *self;
        loop
            invariant
                cursor.wf(),
                string_in_list(self@, language@, string_id as nat) == string_in_list(
                    cursor@,
                    language@,
                    string_id as nat,
                ),
            decreases cursor.remaining(),
        {
            match cursor.next() {
                Ok(Some(package)) => {
                    if package.header().pack_type == HiiPackageType::Strings.tag() {
                        let strings = HiiStringPackageHdr::from_undef(&package);
                        match strings.language() {
                            Ok(name) => {
                                if crate::wire::bytes_equal(name, language) {
                                    return strings.get_units(string_id, language);
                                }
                            },
                            Err(_) => {},
                        }
                    }
                },
                _ => {
                    return None;
                },
            }
        }
    }

    /// String number `string_id`, counted from zero, from the first string
    /// package in the language `language` that the cursor has before it. A
    /// package is in that language if the language name that stands in it is,
    /// byte for byte, the text of `language`, without the zero byte that ends a
    /// `CStr8`.
    ///
    /// `None` stands for "not found": no such package before the end of the
    /// list or before a defect, or no string of that number in it. Every
    /// string that is found is given as text, a surrogate in it as the
    /// replacement character U+FFFD.
    pub fn get_string(&self, string_id: u16, language: &CStr8) -> (r: Option<String>)
        requires
            self.wf(),
        ensures
            match string_in_list(
                self@,
                requested_language(cstr8_bytes(language)),
                string_id as nat,
            ) {
                Some(units) => r matches Some(text) && text@ == ucs2_text(units.drop_last()),
                None => r is None,
            },
    {
        match self.get_units(string_id, language_bytes(language)) {
            Some(units) => {
                proof {
                    lemma_string_in_list_terminated(
                        self@,
                        requested_language(cstr8_bytes(language)),
                        string_id as nat,
                    );
                }
                Some(HiiString::of_terminated(units).to_string())
            },
            None => None,
        }
    }
}

} // verus!
