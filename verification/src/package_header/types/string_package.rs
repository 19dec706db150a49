//! String packages: the package's own header, the blocks of UCS-2 text that
//! follow it, the cursor over those blocks, lookup of a string by language and
//! number, and the builder.
use vstd::prelude::*;
use uefi::{CStr8, CString16};
use crate::error::HiiError;
use crate::records::{lemma_prepend_push, prepend};
use crate::package_header::types::undefine_package::UndefineHiiPackageHdr;
use crate::package_header::{
    is_package_bytes, EfiHiiPackageHeader, HiiPackage, HiiPackageType, MAX_PACKAGE_LENGTH,
};
use crate::text::{
    cstr8_bytes, cstring16_text, cstring16_units, is_terminated, is_ucs2_text, language_bytes,
    requested_language, ucs2_text, units_of, HiiString,
};
use crate::wire::{
    push_all, push_u16, push_u32, read_u16, read_u32, u16_at, u16_bytes, u24_at, u24_bytes, u32_at,
    u32_bytes,
};

verus! {

/// Number of bytes of a string package before the language name: the package
/// header, the header size, the offset of the string information, the language
/// window and the language name identifier.
pub const STRING_PACKAGE_HEADER_SIZE: usize = 46;

/// The tag of a block that holds one UCS-2 string.
pub const SIBT_STRING_UCS2: u8 = 0x14;

/// The tag of the block that ends the blocks of a string package.
pub const SIBT_END: u8 = 0x00;

/// The kinds of block that a string package can hold.
#[derive(Clone, Copy, Debug, PartialEq, Eq, Structural)]
pub enum EfiHiiSibt {
    End,
    StringScsu,
    StringScsuFont,
    StringsSCSU,
    StringsScsuFont,
    StringUcs2,
    StringUcs2Font,
    StringsUcs2,
    StringsUcs2Font,
    Duplicate,
    Skip2,
    Skip1,
    Ext1,
    Ext2,
    Ext4,
    Font,
}

impl EfiHiiSibt {
    /// The tag byte that a block of this kind starts with.
    pub open spec fn spec_tag(self) -> u8 {
        match self {
            EfiHiiSibt::End => 0x00,
            EfiHiiSibt::StringScsu => 0x10,
            EfiHiiSibt::StringScsuFont => 0x11,
            EfiHiiSibt::StringsSCSU => 0x12,
            EfiHiiSibt::StringsScsuFont => 0x13,
            EfiHiiSibt::StringUcs2 => 0x14,
            EfiHiiSibt::StringUcs2Font => 0x15,
            EfiHiiSibt::StringsUcs2 => 0x16,
            EfiHiiSibt::StringsUcs2Font => 0x17,
            EfiHiiSibt::Duplicate => 0x20,
            EfiHiiSibt::Skip2 => 0x21,
            EfiHiiSibt::Skip1 => 0x22,
            EfiHiiSibt::Ext1 => 0x30,
            EfiHiiSibt::Ext2 => 0x31,
            EfiHiiSibt::Ext4 => 0x32,
            EfiHiiSibt::Font => 0x40,
        }
    }

    /// The tag byte that a block of this kind starts with.
    pub fn tag(self) -> (r: u8)
        ensures
            r == self.spec_tag(),
    {
        match self {
            EfiHiiSibt::End => 0x00,
            EfiHiiSibt::StringScsu => 0x10,
            EfiHiiSibt::StringScsuFont => 0x11,
            EfiHiiSibt::StringsSCSU => 0x12,
            EfiHiiSibt::StringsScsuFont => 0x13,
            EfiHiiSibt::StringUcs2 => 0x14,
            EfiHiiSibt::StringUcs2Font => 0x15,
            EfiHiiSibt::StringsUcs2 => 0x16,
            EfiHiiSibt::StringsUcs2Font => 0x17,
            EfiHiiSibt::Duplicate => 0x20,
            EfiHiiSibt::Skip2 => 0x21,
            EfiHiiSibt::Skip1 => 0x22,
            EfiHiiSibt::Ext1 => 0x30,
            EfiHiiSibt::Ext2 => 0x31,
            EfiHiiSibt::Ext4 => 0x32,
            EfiHiiSibt::Font => 0x40,
        }
    }
}

/// The number of whole code units from position `from` of `s` up to and
/// including the first zero unit, or `None` when `s` ends before a zero unit.
pub open spec fn units_until_nul(s: Seq<u8>, from: int) -> Option<int>
    decreases s.len() - from,
{
    if from < 0 || from + 2 > s.len() {
        None
    } else if u16_at(s, from) == 0 {
        Some(1)
    } else {
        match units_until_nul(s, from + 2) {
            Some(n) => Some(n + 1),
            None => None,
        }
    }
}

/// The `n` code units that stand in `s` from position `from` on.
pub open spec fn units_at(s: Seq<u8>, from: int, n: int) -> Seq<u16> {
    Seq::new(n as nat, |i: int| u16_at(s, from + 2 * i) as u16)
}

/// What stands at the front of the bytes that remain of the blocks of a string
/// package: the end of the strings (`Ok(None)`), a UCS-2 block with the number
/// of its code units, the zero unit included, or a defect.
///
/// Every tag but that of a UCS-2 block ends the strings. A block needs its tag
/// byte, and a UCS-2 block its zero unit, inside what remains.
pub open spec fn block_step(rem: Seq<u8>) -> Result<Option<int>, HiiError> {
    if rem.len() == 0 {
        Err(HiiError::TruncatedBuffer)
    } else if rem[0] != SIBT_STRING_UCS2 {
        Ok(None)
    } else {
        match units_until_nul(rem, 1) {
            Some(n) => Ok(Some(n)),
            None => Err(HiiError::TruncatedBuffer),
        }
    }
}

/// The strings that the blocks of a string package hold, each as its code
/// units with the zero unit at the end, in the order in which they stand, or
/// the first defect that a walk from the front meets.
pub open spec fn parse_string_blocks(rem: Seq<u8>) -> Result<Seq<Seq<u16>>, HiiError>
    decreases rem.len(),
{
    match block_step(rem) {
        Ok(None) => Ok(Seq::empty()),
        Ok(Some(n)) => if n >= 1 && 1 + 2 * n <= rem.len() {
            prepend(seq![units_at(rem, 1, n)], parse_string_blocks(rem.skip(1 + 2 * n)))
        } else {
            Err(HiiError::TruncatedBuffer)
        },
        Err(e) => Err(e),
    }
}

/// String number `n`, counted from zero, among the blocks in `rem`, or `None`
/// when a walk from the front ends or fails before it.
pub open spec fn nth_string(rem: Seq<u8>, n: nat) -> Option<Seq<u16>>
    decreases n,
{
    match block_step(rem) {
        Ok(Some(k)) => if n == 0 {
            Some(units_at(rem, 1, k))
        } else {
            nth_string(rem.skip(1 + 2 * k), (n - 1) as nat)
        },
        _ => None,
    }
}

/// The code units counted up to a zero unit lie inside the range, the last of
/// them is the zero unit, and no other is.
pub proof fn lemma_units_until_nul(s: Seq<u8>, from: int)
    ensures
        units_until_nul(s, from) matches Some(n) ==> {
            &&& n >= 1
            &&& 0 <= from
            &&& from + 2 * n <= s.len()
            &&& units_at(s, from, n).last() == 0
            &&& forall|i: int| 0 <= i < n - 1 ==> (#[trigger] units_at(s, from, n)[i]) != 0
        },
    decreases s.len() - from,
{
    if from < 0 || from + 2 > s.len() {
    } else if u16_at(s, from) == 0 {
    } else {
        lemma_units_until_nul(s, from + 2);
        match units_until_nul(s, from + 2) {
            Some(m) => {
                let n = m + 1;
                assert(units_at(s, from, n).last() == units_at(s, from + 2, m).last());
                assert forall|i: int| 0 <= i < n - 1 implies (#[trigger] units_at(s, from, n)[i])
                    != 0 by {
                    if i > 0 {
                        assert(units_at(s, from, n)[i] == units_at(s, from + 2, m)[i - 1]);
                    }
                }
            },
            None => {},
        }
    }
}

/// One block of a string package inside a buffer: the buffer and the position
/// of the block's tag byte in it.
#[derive(Clone, Copy)]
pub struct UndefineHiiStringBlock<'a> {
    pub(crate) buf: &'a [u8],
    pub(crate) location: usize,
}

impl<'a> UndefineHiiStringBlock<'a> {
    /// The buffer that holds the block.
    pub closed spec fn buffer(self) -> Seq<u8> {
        self.buf@
    }

    /// The position of the block's tag byte in the buffer.
    pub closed spec fn position(self) -> int {
        self.location as int
    }

    /// The bytes of the buffer from the block's tag byte on.
    pub open spec fn rest(self) -> Seq<u8> {
        if 0 <= self.position() <= self.buffer().len() {
            self.buffer().skip(self.position())
        } else {
            Seq::empty()
        }
    }

    /// The block whose tag byte stands at `location` in `buf`.
    pub fn new(buf: &'a [u8], location: usize) -> (r: Self)
        ensures
            r.buffer() == buf@,
            r.position() == location,
    {
        Self { buf, location }
    }

    /// The tag byte of the block, or `None` when the position lies outside the
    /// buffer.
    pub fn block_type(&self) -> (r: Option<u8>)
        ensures
            r == if self.rest().len() > 0 {
                Some(self.rest()[0])
            } else {
                None
            },
    {
        if self.location < self.buf.len() {
            Some(self.buf[self.location])
        } else {
            None
        }
    }

    /// The code units of a UCS-2 block, the zero unit at their end included;
    /// `None` for a block of another kind, and for one whose zero unit does not
    /// lie in the buffer.
    pub fn units(&self) -> (r: Option<Vec<u16>>)
        ensures
            match block_step(self.rest()) {
                Ok(Some(n)) => r matches Some(units) && units@ == units_at(self.rest(), 1, n),
                _ => r is None,
            },
    {
        if self.location > self.buf.len() {
            return None;
        }
        match scan_block(self.buf, self.location) {
            Ok(Some(count)) => {
                let ghost rest = self.rest();
                proof {
                    crate::wire::lemma_len_fits(self.buf);
                }
                let mut units: Vec<u16> = Vec::with_capacity(count);
                let mut i: usize = 0;
                while i < count
                    invariant
                        i <= count,
                        self.location + 1 + 2 * count <= self.buf@.len() <= usize::MAX,
                        rest == self.buf@.skip(self.location as int),
                        units@ == units_at(rest, 1, i as int),
                    decreases count - i,
                {
                    let unit: u16 = read_u16(self.buf, self.location + 1 + 2 * i);
                    assert(u16_at(rest, 1 + 2 * i) == unit);
                    units.push(unit);
                    i = i + 1;
                    assert(units@ =~= units_at(rest, 1, i as int));
                }
                Some(units)
            },
            _ => None,
        }
    }

    /// The string of a UCS-2 block: its code units up to the first zero unit,
    /// that unit included; `None` for a block of another kind, and for one
    /// whose zero unit does not lie in the buffer.
    pub fn get_string(&self) -> (r: Option<HiiString>)
        ensures
            match block_step(self.rest()) {
                Ok(Some(n)) => r matches Some(s) && s.wf() && s@ == units_at(self.rest(), 1, n),
                _ => r is None,
            },
    {
        match self.units() {
            Some(units) => {
                proof {
                    lemma_units_until_nul(self.rest(), 1);
                }
                Some(HiiString::of_terminated(units))
            },
            None => None,
        }
    }
}

/// What stands at position `location` of `buf`, as `block_step` says it of
/// the bytes from there on.
fn scan_block(buf: &[u8], location: usize) -> (r: Result<Option<usize>, HiiError>)
    requires
        location <= buf@.len(),
    ensures
        match block_step(buf@.skip(location as int)) {
            Ok(Some(n)) => r matches Ok(Some(m)) && m == n && n >= 1 && location + 1 + 2 * n
                <= buf@.len(),
            Ok(None) => r matches Ok(None),
            Err(e) => r matches Err(f) && f == e,
        },
{
    let end: usize = buf.len();
    if location >= end {
        return Err(HiiError::TruncatedBuffer);
    }
    if buf[location] != SIBT_STRING_UCS2 {
        return Ok(None);
    }
    let ghost rest = buf@.skip(location as int);
    let mut count: usize = 0;
    let mut at: usize = location + 1;
    loop
        invariant
            end == buf@.len(),
            location < at <= end,
            rest == buf@.skip(location as int),
            rest[0] == SIBT_STRING_UCS2,
            at == location + 1 + 2 * count,
            units_until_nul(rest, 1) == match units_until_nul(rest, at - location) {
                Some(n) => Some(n + count),
                None => None,
            },
        decreases end - at,
    {
        if end - at < 2 {
            return Err(HiiError::TruncatedBuffer);
        }
        let unit: u16 = read_u16(buf, at);
        assert(u16_at(rest, at - location) == unit);
        count = count + 1;
        at = at + 2;
        if unit == 0 {
            return Ok(Some(count));
        }
    }
}

/// A cursor over the blocks of a string package.
///
/// It holds the bytes that the blocks stand in and the position of the next
/// block. Its value as a sequence of bytes, `self@`, is what remains from that
/// position on.
#[derive(Clone, Copy)]
pub struct HiiStringBlockIter<'a> {
    pub(crate) buf: &'a [u8],
    pub(crate) location: usize,
}

impl<'a> View for HiiStringBlockIter<'a> {
    type V = Seq<u8>;

    open spec fn view(&self) -> Seq<u8> {
        self.buffer().skip(self.position())
    }
}

impl<'a> HiiStringBlockIter<'a> {
    /// The bytes that the cursor walks.
    pub closed spec fn buffer(self) -> Seq<u8> {
        self.buf@
    }

    /// The position of the next block.
    pub closed spec fn position(self) -> int {
        self.location as int
    }

    /// The position lies inside the bytes or at their end.
    pub open spec fn wf(self) -> bool {
        0 <= self.position() <= self.buffer().len()
    }

    /// The cursor at the front of `start`, the bytes of a string package that
    /// follow its header and language name.
    pub fn new(start: &'a [u8]) -> (r: Self)
        ensures
            r.wf(),
            r.buffer() == start@,
            r.position() == 0,
            r@ == start@,
    {
        let cursor = Self { buf: start, location: 0 };
        proof {
            assert(cursor@ =~= start@);
        }
        cursor
    }

    /// The position of the next block.
    pub fn location(&self) -> (r: usize)
        ensures
            r == self.position(),
    {
        self.location
    }

    /// Yields the next UCS-2 block and moves past it.
    ///
    /// At a block of any other kind it yields `None` and stays. A block whose
    /// tag byte or zero unit does not lie in the bytes is reported, and the
    /// cursor stays as well.
    pub fn next(&mut self) -> (r: Result<Option<UndefineHiiStringBlock<'a>>, HiiError>)
        requires
            old(self).wf(),
        ensures
            final(self).wf(),
            final(self).buffer() == old(self).buffer(),
            match block_step(old(self)@) {
                Ok(Some(n)) => {
                    &&& r matches Ok(Some(block))
                    &&& block.buffer() == old(self).buffer()
                    &&& block.position() == old(self).position()
                    &&& block.rest() == old(self)@
                    &&& n >= 1
                    &&& 1 + 2 * n <= old(self)@.len()
                    &&& final(self).position() == old(self).position() + 1 + 2 * n
                    &&& final(self)@ == old(self)@.skip(1 + 2 * n)
                },
                Ok(None) => r matches Ok(None) && final(self).position() == old(self).position()
                    && final(self)@ == old(self)@,
                Err(e) => r matches Err(f) && f == e && final(self).position() == old(
                    self,
                ).position() && final(self)@ == old(self)@,
            },
    {
        proof {
            crate::wire::lemma_len_fits(self.buf);
        }
        match scan_block(self.buf, self.location) {
            Ok(Some(n)) => {
                let block = UndefineHiiStringBlock::new(self.buf, self.location);
                self.location = self.location + 1 + 2 * n;
                proof {
                    assert(self@ =~= old(self)@.skip(1 + 2 * n));
                }
                Ok(Some(block))
            },
            Ok(None) => Ok(None),
            Err(e) => Err(e),
        }
    }

    /// Walks to the end of the strings and gathers them, each as its code
    /// units with the zero unit at the end.
    pub fn collect(self) -> (r: Result<Vec<Vec<u16>>, HiiError>)
        requires
            self.wf(),
        ensures
            match parse_string_blocks(self@) {
                Ok(strings) => r matches Ok(found) && units_of(found@) == strings,
                Err(e) => r matches Err(f) && f == e,
            },
    {
        let mut cursor = self;
        let mut found: Vec<Vec<u16>> = Vec::new();
        loop
            invariant
                cursor.wf(),
                parse_string_blocks(self@) == prepend(
                    units_of(found@),
                    parse_string_blocks(cursor@),
                ),
            decreases cursor@.len(),
        {
            let ghost seen = units_of(found@);
            match cursor.next() {
                Ok(Some(block)) => {
                    let units: Vec<u16> = block.units().unwrap();
                    found.push(units);
                    proof {
                        let units = found@.last()@;
                        assert(units_of(found@) =~= seen.push(units));
                        lemma_prepend_push(seen, units, parse_string_blocks(cursor@));
                    }
                },
                Ok(None) => {
                    proof {
                        assert(seen + Seq::<Seq<u16>>::empty() =~= seen);
                    }
                    return Ok(found);
                },
                Err(e) => {
                    return Err(e);
                },
            }
        }
    }
}

/// The header size that a string package states, provided that the package
/// holds the fixed part of its header and that the size lies between the end of
/// that part and the end of the package.
pub open spec fn string_header_size(p: Seq<u8>) -> Result<int, HiiError> {
    if p.len() < 46 {
        Err(HiiError::TruncatedBuffer)
    } else if u32_at(p, 4) < 46 {
        Err(HiiError::InvalidLength)
    } else if u32_at(p, 4) > p.len() {
        Err(HiiError::TruncatedBuffer)
    } else {
        Ok(u32_at(p, 4))
    }
}

/// The language name of a string package: the bytes between the fixed part of
/// the header and the end of the header.
pub open spec fn string_language(p: Seq<u8>) -> Result<Seq<u8>, HiiError> {
    match string_header_size(p) {
        Ok(size) => Ok(p.subrange(46, size)),
        Err(e) => Err(e),
    }
}

/// The bytes of a string package that follow its header: its blocks.
pub open spec fn string_block_bytes(p: Seq<u8>) -> Result<Seq<u8>, HiiError> {
    match string_header_size(p) {
        Ok(size) => Ok(p.skip(size)),
        Err(e) => Err(e),
    }
}

/// String number `id`, counted from zero, of the string package `p`, provided
/// that the package is in the language `language`; `None` for another language,
/// for a number that the package does not reach, and for a package whose header
/// is defective.
pub open spec fn string_in_package(p: Seq<u8>, language: Seq<u8>, id: nat) -> Option<Seq<u16>> {
    match string_header_size(p) {
        Ok(size) => if p.subrange(46, size) == language {
            nth_string(p.skip(size), id)
        } else {
            None
        },
        Err(_) => None,
    }
}

/// The characters of a Latin-1 language name: one for each byte that is not
/// zero.
pub open spec fn latin1_text(bytes: Seq<u8>) -> Seq<char>
    decreases bytes.len(),
{
    if bytes.len() == 0 {
        Seq::empty()
    } else if bytes.last() == 0 {
        latin1_text(bytes.drop_last())
    } else {
        latin1_text(bytes.drop_last()).push(bytes.last() as char)
    }
}

/// A package seen as a string package.
#[derive(Clone, Copy)]
pub struct HiiStringPackageHdr<'a> {
    pub parts: UndefineHiiPackageHdr<'a>,
}

impl<'a> crate::package_header::PackageHeader<'a> for HiiStringPackageHdr<'a> {
    const PACKAGE_TYPE: HiiPackageType = HiiPackageType::Strings;

    open spec fn parts(&self) -> UndefineHiiPackageHdr<'a> {
        self.parts
    }

    fn from_undef(pack_head: &UndefineHiiPackageHdr<'a>) -> (r: Self) {
        Self { parts: *pack_head }
    }

    fn header(&self) -> (r: EfiHiiPackageHeader) {
        self.parts.header()
    }
}

impl<'a> HiiStringPackageHdr<'a> {
    /// The bytes of the package, or `TruncatedBuffer` when they are fewer than
    /// the fixed part of a string package's header.
    fn fixed(&self) -> (r: Result<&'a [u8], HiiError>)
        requires
            self.parts.wf(),
        ensures
            match r {
                Ok(bytes) => self.parts@.len() >= 46 && bytes@ == self.parts@,
                Err(e) => self.parts@.len() < 46 && e == HiiError::TruncatedBuffer,
            },
    {
        let bytes: &'a [u8] = self.parts.get_slice();
        if bytes.len() < STRING_PACKAGE_HEADER_SIZE {
            Err(HiiError::TruncatedBuffer)
        } else {
            Ok(bytes)
        }
    }

    /// The size of the package's header, language name included; or
    /// `TruncatedBuffer` when the package is shorter than the fixed part of the
    /// header.
    pub fn hdr_size(&self) -> (r: Result<u32, HiiError>)
        requires
            self.parts.wf(),
        ensures
            match r {
                Ok(size) => self.parts@.len() >= 46 && size == u32_at(self.parts@, 4),
                Err(e) => self.parts@.len() < 46 && e == HiiError::TruncatedBuffer,
            },
    {
        match self.fixed() {
            Ok(bytes) => Ok(read_u32(bytes, 4)),
            Err(e) => Err(e),
        }
    }

    /// The offset of the string information from the start of the package; or
    /// `TruncatedBuffer` when the package is shorter than the fixed part of the
    /// header.
    pub fn string_info_offset(&self) -> (r: Result<u32, HiiError>)
        requires
            self.parts.wf(),
        ensures
            match r {
                Ok(offset) => self.parts@.len() >= 46 && offset == u32_at(self.parts@, 8),
                Err(e) => self.parts@.len() < 46 && e == HiiError::TruncatedBuffer,
            },
    {
        match self.fixed() {
            Ok(bytes) => Ok(read_u32(bytes, 8)),
            Err(e) => Err(e),
        }
    }

    /// The sixteen code units of the language window; or `TruncatedBuffer` when
    /// the package is shorter than the fixed part of the header.
    pub fn language_window(&self) -> (r: Result<[u16; 16], HiiError>)
        requires
            self.parts.wf(),
        ensures
            match r {
                Ok(window) => self.parts@.len() >= 46 && window@ == units_at(self.parts@, 12, 16),
                Err(e) => self.parts@.len() < 46 && e == HiiError::TruncatedBuffer,
            },
    {
        match self.fixed() {
            Ok(bytes) => {
                let window: [u16; 16] = [
                    read_u16(bytes, 12),
                    read_u16(bytes, 14),
                    read_u16(bytes, 16),
                    read_u16(bytes, 18),
                    read_u16(bytes, 20),
                    read_u16(bytes, 22),
                    read_u16(bytes, 24),
                    read_u16(bytes, 26),
                    read_u16(bytes, 28),
                    read_u16(bytes, 30),
                    read_u16(bytes, 32),
                    read_u16(bytes, 34),
                    read_u16(bytes, 36),
                    read_u16(bytes, 38),
                    read_u16(bytes, 40),
                    read_u16(bytes, 42),
                ];
                assert(window@ =~= units_at(self.parts@, 12, 16));
                Ok(window)
            },
            Err(e) => Err(e),
        }
    }

    /// The identifier of the string that names the language; or
    /// `TruncatedBuffer` when the package is shorter than the fixed part of the
    /// header.
    pub fn language_name(&self) -> (r: Result<u16, HiiError>)
        requires
            self.parts.wf(),
        ensures
            match r {
                Ok(name) => self.parts@.len() >= 46 && name == u16_at(self.parts@, 44),
                Err(e) => self.parts@.len() < 46 && e == HiiError::TruncatedBuffer,
            },
    {
        match self.fixed() {
            Ok(bytes) => Ok(read_u16(bytes, 44)),
            Err(e) => Err(e),
        }
    }

    /// The bytes of the package and the size of its header, once the size is
    /// known to lie inside the package.
    fn checked(&self) -> (r: Result<(&'a [u8], usize), HiiError>)
        requires
            self.parts.wf(),
        ensures
            match string_header_size(self.parts@) {
                Ok(size) => r matches Ok(found) && found.0@ == self.parts@ && found.1 == size,
                Err(e) => r matches Err(f) && f == e,
            },
    {
        match self.fixed() {
            Ok(bytes) => {
                let size: usize = read_u32(bytes, 4) as usize;
                if size < STRING_PACKAGE_HEADER_SIZE {
                    Err(HiiError::InvalidLength)
                } else if size > bytes.len() {
                    Err(HiiError::TruncatedBuffer)
                } else {
                    Ok((bytes, size))
                }
            },
            Err(e) => Err(e),
        }
    }

    /// The language name as it stands in the package; or what is wrong with
    /// the package's header.
    pub fn language(&self) -> (r: Result<&'a [u8], HiiError>)
        requires
            self.parts.wf(),
        ensures
            match string_language(self.parts@) {
                Ok(name) => r matches Ok(found) && found@ == name,
                Err(e) => r matches Err(f) && f == e,
            },
    {
        match self.checked() {
            Ok((bytes, size)) => Ok(
                vstd::slice::slice_subrange(bytes, STRING_PACKAGE_HEADER_SIZE, size),
            ),
            Err(e) => Err(e),
        }
    }

    /// The language name as text, without its zero bytes; or what is wrong
    /// with the package's header.
    pub fn str_language(&self) -> (r: Result<String, HiiError>)
        requires
            self.parts.wf(),
        ensures
            match string_language(self.parts@) {
                Ok(name) => r matches Ok(found) && found@ == latin1_text(name),
                Err(e) => r matches Err(f) && f == e,
            },
    {
        match self.language() {
            Ok(name) => {
                let mut text = String::new();
                let mut i: usize = 0;
                while i < name.len()
                    invariant
                        i <= name@.len(),
                        text@ == latin1_text(name@.subrange(0, i as int)),
                    decreases name@.len() - i,
                {
                    let byte: u8 = name[i];
                    if byte != 0 {
                        text.push(byte as char);
                    }
                    i = i + 1;
                    assert(name@.subrange(0, i as int).drop_last() =~= name@.subrange(0, i - 1));
                }
                assert(name@.subrange(0, i as int) =~= name@);
                Ok(text)
            },
            Err(e) => Err(e),
        }
    }

    /// The cursor over the blocks of the package; or what is wrong with the
    /// package's header.
    pub fn blocks(&self) -> (r: Result<HiiStringBlockIter<'a>, HiiError>)
        requires
            self.parts.wf(),
        ensures
            match string_block_bytes(self.parts@) {
                Ok(bytes) => r matches Ok(cursor) && cursor.wf() && cursor.buffer() == bytes
                    && cursor.position() == 0 && cursor@ == bytes,
                Err(e) => r matches Err(f) && f == e,
            },
    {
        match self.checked() {
            Ok((bytes, size)) => Ok(
                HiiStringBlockIter::new(vstd::slice::slice_subrange(bytes, size, bytes.len())),
            ),
            Err(e) => Err(e),
        }
    }

    /// The code units of string number `string_id`, counted from zero, with the
    /// zero unit at their end, provided that the package is in the language
    /// `language`.
    ///
    /// `None` stands for "not found": another language, a number that the
    /// package does not reach, or a package that cannot be walked that far.
    #[verifier::loop_isolation(false)]
    pub fn get_units(&self, string_id: u16, language: &[u8]) -> (r: Option<Vec<u16>>)
        requires
            self.parts.wf(),
        ensures
            match string_in_package(self.parts@, language@, string_id as nat) {
                Some(units) => r matches Some(found) && found@ == units,
                None => r is None,
            },
    {
        match self.checked() {
            Ok((bytes, size)) => {
                let name: &[u8] = vstd::slice::slice_subrange(
                    bytes,
                    STRING_PACKAGE_HEADER_SIZE,
                    size,
                );
                if !crate::wire::bytes_equal(name, language) {
                    return None;
                }
                let mut cursor = HiiStringBlockIter::new(
                    vstd::slice::slice_subrange(bytes, size, bytes.len()),
                );
                let ghost blocks = cursor@;
                let mut left: u16 = string_id;
                loop
                    invariant
                        cursor.wf(),
                        nth_string(blocks, string_id as nat) == nth_string(cursor@, left as nat),
                    decreases left,
                {
                    match cursor.next() {
                        Ok(Some(block)) => {
                            if left == 0 {
                                return block.units();
                            }
                            left = left - 1;
                        },
                        _ => {
                            return None;
                        },
                    }
                }
            },
            Err(_) => None,
        }
    }

    /// String number `string_id`, counted from zero, provided that the package
    /// is in the language `language`: the language name that stands in the
    /// package is, byte for byte, the text of `language`, without the zero
    /// byte that ends a `CStr8`.
    ///
    /// `None` stands for "not found": another language, a number that the
    /// package does not reach, or a package that cannot be walked that far.
    /// Every string that is found is given as text, a surrogate in it as the
    /// replacement character U+FFFD.
    pub fn get_string(&self, string_id: u16, language: &CStr8) -> (r: Option<String>)
        requires
            self.parts.wf(),
        ensures
            match string_in_package(
                self.parts@,
                requested_language(cstr8_bytes(language)),
                string_id as nat,
            ) {
                Some(units) => r matches Some(text) && text@ == ucs2_text(units.drop_last()),
                None => r is None,
            },
    {
        match self.get_units(string_id, language_bytes(language)) {
            Some(units) => {
                proof {
                    match crate::package_header::types::string_package::string_header_size(
                        self.parts@,
                    ) {
                        Ok(size) => {
                            lemma_nth_string_terminated(self.parts@.skip(size), string_id as nat);
                        },
                        Err(_) => {},
                    }
                }
                Some(HiiString::of_terminated(units).to_string())
            },
            None => None,
        }
    }

    /// The number of strings of the package; or the first defect that a walk
    /// over its blocks meets.
    #[verifier::loop_isolation(false)]
    pub fn count_strings(&self) -> (r: Result<usize, HiiError>)
        requires
            self.parts.wf(),
        ensures
            match string_block_bytes(self.parts@) {
                Ok(bytes) => match parse_string_blocks(bytes) {
                    Ok(strings) => r matches Ok(count) && count == strings.len(),
                    Err(e) => r matches Err(f) && f == e,
                },
                Err(e) => r matches Err(f) && f == e,
            },
    {
        match self.blocks() {
            Ok(start) => {
                let mut cursor = start;
                let mut count: usize = 0;
                let ghost mut seen: Seq<Seq<u16>> = Seq::empty();
                loop
                    invariant
                        cursor.wf(),
                        parse_string_blocks(start@) == prepend(seen, parse_string_blocks(cursor@)),
                        count == seen.len(),
                        count <= cursor.position(),
                    decreases cursor@.len(),
                {
                    let ghost before = cursor@;
                    match cursor.next() {
                        Ok(Some(_)) => {
                            proof {
                                let n = (before.len() - cursor@.len() - 1) / 2;
                                let units = units_at(before, 1, n);
                                lemma_prepend_push(seen, units, parse_string_blocks(cursor@));
                                seen = seen.push(units);
                            }
                            count = count + 1;
                        },
                        Ok(None) => {
                            proof {
                                assert(seen + Seq::<Seq<u16>>::empty() =~= seen);
                            }
                            return Ok(count);
                        },
                        Err(e) => {
                            return Err(e);
                        },
                    }
                }
            },
            Err(e) => Err(e),
        }
    }
}

/// Every string that a walk over blocks finds ends with the only zero unit
/// among its code units.
pub proof fn lemma_nth_string_terminated(rem: Seq<u8>, n: nat)
    ensures
        nth_string(rem, n) matches Some(units) ==> is_terminated(units),
    decreases n,
{
    match block_step(rem) {
        Ok(Some(k)) => {
            if n == 0 {
                lemma_units_until_nul(rem, 1);
            } else {
                lemma_nth_string_terminated(rem.skip(1 + 2 * k), (n - 1) as nat);
            }
        },
        _ => {},
    }
}

/// The bytes that `units` are written as: two for each, the low one first.
pub open spec fn units_bytes(units: Seq<u16>) -> Seq<u8> {
    Seq::new(2 * units.len(), |i: int| crate::wire::byte_of(units[i / 2] as int, (i % 2) as nat))
}

/// The block that holds `text`: the tag of a UCS-2 block, the code units of
/// the text, and a zero unit.
pub open spec fn ucs2_block(text: Seq<u16>) -> Seq<u8> {
    seq![SIBT_STRING_UCS2] + units_bytes(text.push(0u16))
}

/// The blocks that hold `texts`, one after the other.
pub open spec fn string_blocks(texts: Seq<Seq<u16>>) -> Seq<u8>
    decreases texts.len(),
{
    if texts.len() == 0 {
        Seq::empty()
    } else {
        ucs2_block(texts[0]) + string_blocks(texts.skip(1))
    }
}

/// The number of bytes of the string package for `language` and `texts`.
pub open spec fn string_package_size(language: Seq<u8>, texts: Seq<Seq<u16>>) -> int {
    46 + language.len() as int + string_blocks(texts).len() as int + 1
}

/// The fixed part of the header of a string package of `size` bytes whose
/// header, language name included, has `header_size` bytes.
///
/// The package header states the size and the type. Then come the header
/// size, twice (as the header size and as the offset of the strings), a
/// language window of sixteen zero units, and 1 as the identifier of the
/// language's name.
pub open spec fn string_fixed_header(size: int, header_size: int) -> Seq<u8> {
    u24_bytes(size).push(HiiPackageType::Strings.spec_tag()) + u32_bytes(header_size) + u32_bytes(
        header_size,
    ) + Seq::new(32, |i: int| 0u8) + u16_bytes(1)
}

/// The string package for `language` and `texts`: the fixed part of the
/// header, the language name, one UCS-2 block for each text, and the block
/// that ends them.
pub open spec fn string_package_bytes(language: Seq<u8>, texts: Seq<Seq<u16>>) -> Seq<u8> {
    string_fixed_header(string_package_size(language, texts), 46 + language.len() as int)
        + language + string_blocks(texts).push(SIBT_END)
}

/// The fields of the fixed part of a string package's header hold what it was
/// built from.
pub proof fn lemma_string_fixed_header(size: int, header_size: int)
    requires
        0 <= size <= MAX_PACKAGE_LENGTH,
        0 <= header_size <= u32::MAX,
    ensures
        ({
            let h = string_fixed_header(size, header_size);
            &&& h.len() == 46
            &&& u24_at(h, 0) == size
            &&& h[3] == HiiPackageType::Strings.spec_tag()
            &&& u32_at(h, 4) == header_size
            &&& u32_at(h, 8) == header_size
            &&& units_at(h, 12, 16) == Seq::new(16, |i: int| 0u16)
            &&& u16_at(h, 44) == 1
        }),
{
    let h = string_fixed_header(size, header_size);
    crate::wire::lemma_read_written(size);
    crate::wire::lemma_read_written(header_size);
    crate::wire::lemma_read_written(1);
    assert(h.subrange(0, 3) =~= u24_bytes(size));
    assert(u24_at(h, 0) == u24_at(u24_bytes(size), 0));
    assert(h.subrange(4, 8) =~= u32_bytes(header_size));
    assert(u32_at(h, 4) == u32_at(u32_bytes(header_size), 0));
    assert(h.subrange(8, 12) =~= u32_bytes(header_size));
    assert(u32_at(h, 8) == u32_at(u32_bytes(header_size), 0));
    assert(h.subrange(44, 46) =~= u16_bytes(1));
    assert(u16_at(h, 44) == u16_at(u16_bytes(1), 0));
    assert(h.subrange(12, 44) =~= Seq::new(32, |i: int| 0u8));
    assert forall|i: int| 0 <= i < 16 implies (#[trigger] units_at(h, 12, 16)[i]) == 0 by {
        assert(h[12 + 2 * i] == h.subrange(12, 44)[2 * i]);
        assert(h[12 + 2 * i + 1] == h.subrange(12, 44)[2 * i + 1]);
    }
    assert(units_at(h, 12, 16) =~= Seq::new(16, |i: int| 0u16));
}

/// The texts of `strings`, each as the sequence of its code units, without
/// the zero unit at the end.
pub open spec fn texts_of(strings: Seq<CString16>) -> Seq<Seq<u16>> {
    Seq::new(strings.len(), |i: int| cstring16_text(strings[i]))
}

/// The blocks for `texts` and one more text are the blocks for `texts`, then
/// the block for that text.
pub proof fn lemma_string_blocks_push(texts: Seq<Seq<u16>>, text: Seq<u16>)
    ensures
        string_blocks(texts.push(text)) == string_blocks(texts) + ucs2_block(text),
    decreases texts.len(),
{
    if texts.len() == 0 {
        assert(texts.push(text).skip(1) =~= texts);
        assert(string_blocks(texts.push(text)) == ucs2_block(text) + string_blocks(texts));
        assert(string_blocks(texts.push(text)) =~= string_blocks(texts) + ucs2_block(text));
    } else {
        lemma_string_blocks_push(texts.skip(1), text);
        assert(texts.push(text).skip(1) =~= texts.skip(1).push(text));
        assert(string_blocks(texts.push(text)) =~= string_blocks(texts) + ucs2_block(text));
    }
}

/// Appends the block that holds `text` to `out`.
fn push_ucs2_block(out: &mut Vec<u8>, text: &[u16])
    ensures
        final(out)@ == old(out)@ + ucs2_block(text@),
{
    out.push(SIBT_STRING_UCS2);
    let mut i: usize = 0;
    while i < text.len()
        invariant
            i <= text@.len(),
            out@ == old(out)@ + seq![SIBT_STRING_UCS2] + units_bytes(text@.subrange(0, i as int)),
        decreases text@.len() - i,
    {
        push_u16(out, text[i]);
        i = i + 1;
        assert(units_bytes(text@.subrange(0, i as int)) =~= units_bytes(
            text@.subrange(0, i - 1),
        ) + u16_bytes(text@[i - 1] as int));
        assert(out@ =~= old(out)@ + seq![SIBT_STRING_UCS2] + units_bytes(
            text@.subrange(0, i as int),
        ));
    }
    push_u16(out, 0);
    proof {
        assert(text@.subrange(0, i as int) =~= text@);
        assert(units_bytes(text@.push(0u16)) =~= units_bytes(text@) + u16_bytes(0));
        assert(out@ =~= old(out)@ + ucs2_block(text@));
    }
}

impl<'a> HiiStringPackageHdr<'a> {
    /// Builds the string package for the language name `language` and the
    /// texts `strings`, each given by its code units without a zero unit at
    /// the end; `LengthOverflow` when the package would be longer than the
    /// length field of a package header can state.
    pub fn build(language: &[u8], strings: &Vec<Vec<u16>>) -> (r: Result<HiiPackage, HiiError>)
        ensures
            match r {
                Ok(package) => string_package_size(language@, units_of(strings@))
                    <= MAX_PACKAGE_LENGTH && package@ == string_package_bytes(
                    language@,
                    units_of(strings@),
                ) && package.is_package(),
                Err(e) => string_package_size(language@, units_of(strings@)) > MAX_PACKAGE_LENGTH
                    && e == HiiError::LengthOverflow,
            },
    {
        let ghost texts = units_of(strings@);
        let mut blocks: Vec<u8> = Vec::new();
        let mut i: usize = 0;
        while i < strings.len()
            invariant
                i <= strings@.len(),
                texts == units_of(strings@),
                blocks@ == string_blocks(texts.take(i as int)),
            decreases strings@.len() - i,
        {
            push_ucs2_block(&mut blocks, strings[i].as_slice());
            proof {
                lemma_string_blocks_push(texts.take(i as int), texts[i as int]);
                assert(texts.take(i + 1) =~= texts.take(i as int).push(texts[i as int]));
            }
            i = i + 1;
        }
        proof {
            assert(texts.take(i as int) =~= texts);
        }
        blocks.push(SIBT_END);
        let limit: usize = MAX_PACKAGE_LENGTH as usize;
        if language.len() > limit - STRING_PACKAGE_HEADER_SIZE || blocks.len() > limit
            - STRING_PACKAGE_HEADER_SIZE - language.len() {
            return Err(HiiError::LengthOverflow);
        }
        let header_size: usize = STRING_PACKAGE_HEADER_SIZE + language.len();
        let package_size: usize = header_size + blocks.len();
        let header = EfiHiiPackageHeader::new(package_size as u32, HiiPackageType::Strings).unwrap();
        let mut bytes: Vec<u8> = Vec::with_capacity(package_size);
        let head: [u8; 4] = header.to_bytes();
        push_all(&mut bytes, head.as_slice());
        push_u32(&mut bytes, header_size as u32);
        push_u32(&mut bytes, header_size as u32);
        let mut k: usize = 0;
        while k < 32
            invariant
                k <= 32,
                bytes@ == header.spec_bytes() + u32_bytes(header_size as int) + u32_bytes(
                    header_size as int,
                ) + Seq::new(k as nat, |i: int| 0u8),
            decreases 32 - k,
        {
            bytes.push(0);
            k = k + 1;
            assert(Seq::new(k as nat, |i: int| 0u8) =~= Seq::new(
                (k - 1) as nat,
                |i: int| 0u8,
            ).push(0u8));
        }
        push_u16(&mut bytes, 1);
        push_all(&mut bytes, language);
        push_all(&mut bytes, blocks.as_slice());
        proof {
            assert(bytes@ =~= string_package_bytes(language@, texts));
            lemma_string_fixed_header(package_size as int, header_size as int);
            assert(bytes@.take(46) =~= string_fixed_header(
                package_size as int,
                header_size as int,
            ));
            assert(u24_at(bytes@, 0) == u24_at(bytes@.take(46), 0));
        }
        Ok(HiiPackage::new(bytes))
    }

    /// Builds the string package for the language name `language` and the
    /// texts `strings`; `LengthOverflow` when the package would be longer than
    /// the length field of a package header can state.
    ///
    /// The language name is written as the bytes of `language`, with no byte
    /// added. The texts hold no zero unit and no surrogate, so that a walk over
    /// the blocks of the package finds them again.
    pub fn create(language: String, strings: Vec<CString16>) -> (r: Result<HiiPackage, HiiError>)
        ensures
            forall|i: int|
                0 <= i < strings@.len() ==> is_ucs2_text(#[trigger] texts_of(strings@)[i]),
            match r {
                Ok(package) => string_package_size(
                    vstd::utf8::encode_utf8(language@),
                    texts_of(strings@),
                ) <= MAX_PACKAGE_LENGTH && package@ == string_package_bytes(
                    vstd::utf8::encode_utf8(language@),
                    texts_of(strings@),
                ) && package.is_package(),
                Err(e) => string_package_size(
                    vstd::utf8::encode_utf8(language@),
                    texts_of(strings@),
                ) > MAX_PACKAGE_LENGTH && e == HiiError::LengthOverflow,
            },
    {
        let mut texts: Vec<Vec<u16>> = Vec::new();
        let mut i: usize = 0;
        while i < strings.len()
            invariant
                i <= strings@.len(),
                units_of(texts@) == texts_of(strings@).take(i as int),
                forall|k: int| 0 <= k < i ==> is_ucs2_text(#[trigger] texts_of(strings@)[k]),
            decreases strings@.len() - i,
        {
            let ghost before = units_of(texts@);
            let text: Vec<u16> = cstring16_units(&strings[i]);
            texts.push(text);
            i = i + 1;
            assert(units_of(texts@) =~= before.push(text@));
            assert(texts_of(strings@).take(i as int) =~= texts_of(strings@).take(i - 1).push(
                text@,
            ));
        }
        proof {
            assert(texts_of(strings@).take(i as int) =~= texts_of(strings@));
        }
        Self::build(language.as_str().as_bytes(), &texts)
    }
}

/// Whether no code unit of `text` is zero.
pub open spec fn has_no_nul(text: Seq<u16>) -> bool {
    forall|i: int| 0 <= i < text.len() ==> (#[trigger] text[i]) != 0
}

/// The texts of `texts`, each with a zero unit at its end.
pub open spec fn with_nul(texts: Seq<Seq<u16>>) -> Seq<Seq<u16>> {
    Seq::new(texts.len(), |i: int| texts[i].push(0u16))
}

/// Code units that were written at `from` are read back from there.
proof fn lemma_units_read_back(s: Seq<u8>, from: int, units: Seq<u16>)
    requires
        0 <= from,
        from + 2 * units.len() <= s.len(),
        s.subrange(from, from + 2 * units.len()) == units_bytes(units),
    ensures
        units_at(s, from, units.len() as int) == units,
{
    assert forall|i: int| 0 <= i < units.len() implies (#[trigger] units_at(
        s,
        from,
        units.len() as int,
    )[i]) == units[i] by {
        let written = s.subrange(from, from + 2 * units.len());
        assert(s[from + 2 * i] == written[2 * i]);
        assert(s[from + 2 * i + 1] == written[2 * i + 1]);
        crate::wire::lemma_read_written(units[i] as int);
    }
    assert(units_at(s, from, units.len() as int) =~= units);
}

/// In a buffer that starts with the block for a text without a zero unit, the
/// scan from code unit `k` of the block counts the units that are left of the
/// text, and the zero unit.
proof fn lemma_scan_from(s: Seq<u8>, text: Seq<u16>, k: int)
    requires
        has_no_nul(text),
        0 <= k <= text.len(),
        ucs2_block(text).len() <= s.len(),
        s.take(ucs2_block(text).len() as int) == ucs2_block(text),
    ensures
        units_until_nul(s, 1 + 2 * k) == Some(text.len() + 1 - k),
    decreases text.len() - k,
{
    let units = text.push(0u16);
    let block = ucs2_block(text);
    assert(block.len() == 1 + 2 * units.len());
    assert(s.subrange(1, block.len() as int) =~= block.subrange(1, block.len() as int));
    assert(block.subrange(1, block.len() as int) =~= units_bytes(units));
    lemma_units_read_back(s, 1, units);
    assert(units_at(s, 1, units.len() as int)[k] == units[k]);
    if k < text.len() {
        lemma_scan_from(s, text, k + 1);
    }
}

/// The blocks that were built for texts without a zero unit, followed by the
/// block that ends them and by anything else, are read back as those texts,
/// each with its zero unit, and as nothing more.
pub proof fn lemma_parse_string_blocks(texts: Seq<Seq<u16>>, tail: Seq<u8>)
    requires
        forall|i: int| 0 <= i < texts.len() ==> has_no_nul(#[trigger] texts[i]),
    ensures
        parse_string_blocks(string_blocks(texts).push(SIBT_END) + tail) == Ok::<
            Seq<Seq<u16>>,
            HiiError,
        >(with_nul(texts)),
        forall|id: nat|
            id < texts.len() ==> #[trigger] nth_string(
                string_blocks(texts).push(SIBT_END) + tail,
                id,
            ) == Some(texts[id as int].push(0u16)),
        forall|id: nat|
            id >= texts.len() ==> #[trigger] nth_string(
                string_blocks(texts).push(SIBT_END) + tail,
                id,
            ) is None,
    decreases texts.len(),
{
    let s = string_blocks(texts).push(SIBT_END) + tail;
    if texts.len() == 0 {
        assert(s[0] == SIBT_END);
        assert(parse_string_blocks(s).unwrap() =~= with_nul(texts));
    } else {
        let text = texts[0];
        let rest = texts.skip(1);
        let n: int = text.len() as int + 1;
        let after = string_blocks(rest).push(SIBT_END) + tail;
        assert forall|i: int| 0 <= i < rest.len() implies has_no_nul(#[trigger] rest[i]) by {
            assert(rest[i] == texts[i + 1]);
        }
        lemma_parse_string_blocks(rest, tail);
        assert(s =~= ucs2_block(text) + after);
        assert(s.take(ucs2_block(text).len() as int) =~= ucs2_block(text));
        lemma_scan_from(s, text, 0);
        assert(s.subrange(1, 1 + 2 * n) =~= units_bytes(text.push(0u16)));
        lemma_units_read_back(s, 1, text.push(0u16));
        assert(s.skip(1 + 2 * n) =~= after);
        assert(block_step(s) == Ok::<Option<int>, HiiError>(Some(n as int)));
        assert(seq![text.push(0u16)] + with_nul(rest) =~= with_nul(texts));
        assert forall|id: nat| id < texts.len() implies #[trigger] nth_string(s, id) == Some(
            texts[id as int].push(0u16),
        ) by {
            if id > 0 {
                assert(nth_string(s, id) == nth_string(after, (id - 1) as nat));
                assert(rest[id - 1] == texts[id as int]);
            }
        }
        assert forall|id: nat| id >= texts.len() implies #[trigger] nth_string(s, id) is None by {
            assert(nth_string(s, id) == nth_string(after, (id - 1) as nat));
        }
    }
}

/// A string package built from texts without a zero unit is read back as it
/// was built: it is a whole package of the string type; its header states the
/// size of the header as header size and as offset of the strings, and 1 as
/// the identifier of the language's name; its language name is the one
/// supplied; and a walk over its blocks finds the texts that were supplied,
/// each with its zero unit, in their order, and then ends.
pub proof fn lemma_built_strings_decode(language: Seq<u8>, texts: Seq<Seq<u16>>)
    requires
        forall|i: int| 0 <= i < texts.len() ==> has_no_nul(#[trigger] texts[i]),
        string_package_size(language, texts) <= MAX_PACKAGE_LENGTH,
    ensures
        ({
            let p = string_package_bytes(language, texts);
            &&& is_package_bytes(p)
            &&& p[3] == HiiPackageType::Strings.spec_tag()
            &&& string_header_size(p) == Ok::<int, HiiError>(46 + language.len() as int)
            &&& u32_at(p, 8) == 46 + language.len()
            &&& u16_at(p, 44) == 1
            &&& string_language(p) == Ok::<Seq<u8>, HiiError>(language)
            &&& string_block_bytes(p) == Ok::<Seq<u8>, HiiError>(
                string_blocks(texts).push(SIBT_END),
            )
            &&& parse_string_blocks(string_blocks(texts).push(SIBT_END)) == Ok::<
                Seq<Seq<u16>>,
                HiiError,
            >(with_nul(texts))
            &&& forall|id: nat|
                id < texts.len() ==> #[trigger] string_in_package(p, language, id) == Some(
                    texts[id as int].push(0u16),
                )
            &&& forall|id: nat|
                id >= texts.len() ==> #[trigger] string_in_package(p, language, id) is None
        }),
{
    let p = string_package_bytes(language, texts);
    let size = string_package_size(language, texts);
    let header: int = 46 + language.len() as int;
    let fixed = string_fixed_header(size, header);
    let blocks = string_blocks(texts).push(SIBT_END);
    lemma_string_fixed_header(size, header);
    assert(p.take(46) =~= fixed);
    assert(u24_at(p, 0) == u24_at(fixed, 0));
    assert(u32_at(p, 4) == u32_at(fixed, 4));
    assert(u32_at(p, 8) == u32_at(fixed, 8));
    assert(u16_at(p, 44) == u16_at(fixed, 44));
    assert(p[3] == fixed[3]);
    assert(p.subrange(46, header) =~= language);
    assert(p.skip(header) =~= blocks);
    lemma_parse_string_blocks(texts, Seq::empty());
    assert(blocks + Seq::<u8>::empty() =~= blocks);
}

} // verus!
