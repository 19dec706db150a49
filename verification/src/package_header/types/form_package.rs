//! Form packages: the opcode records that the body is made of, the cursor over
//! them, and the builder.
pub mod ifr_parse;

use vstd::prelude::*;
use crate::error::HiiError;
use crate::records::{lemma_prepend_push, prepend};
use crate::package_header::types::undefine_package::UndefineHiiPackageHdr;
use crate::package_header::{
    EfiHiiPackageHeader, HiiPackage, HiiPackageType, PackageHeader, MAX_PACKAGE_LENGTH,
    PACKAGE_HEADER_SIZE,
};
use crate::wire::{push_all, u24_bytes};

verus! {

/// Number of bytes of an opcode record before its payload: the operator's
/// code, and the byte that holds the length and the scope flag.
pub const OP_HEADER_SIZE: usize = 2;

/// The length that the second byte of an opcode record states: its lower
/// seven bits. The length counts the whole record.
pub open spec fn op_length(b: u8) -> int {
    (b & 0x7f) as int
}

/// The scope flag that the second byte of an opcode record holds: its highest
/// bit, in place.
pub open spec fn op_scope(b: u8) -> u8 {
    b & 0x80
}

/// What stands at the front of the bytes that remain of a form package's body:
/// nothing (`Ok(None)`), an opcode record of the length given, or a defect.
///
/// A record needs its two leading bytes; the length that it states covers at
/// least those and at most what remains.
pub open spec fn opcode_step(rem: Seq<u8>) -> Result<Option<int>, HiiError> {
    if rem.len() == 0 {
        Ok(None)
    } else if rem.len() < 2 {
        Err(HiiError::TruncatedBuffer)
    } else if op_length(rem[1]) < 2 {
        Err(HiiError::InvalidLength)
    } else if op_length(rem[1]) > rem.len() {
        Err(HiiError::TruncatedBuffer)
    } else {
        Ok(Some(op_length(rem[1])))
    }
}

/// The opcode records that the body of a form package is made of, each as its
/// bytes and in the order in which they stand, or the first defect that a walk
/// from the front meets.
pub open spec fn parse_opcodes(rem: Seq<u8>) -> Result<Seq<Seq<u8>>, HiiError>
    decreases rem.len(),
{
    match opcode_step(rem) {
        Ok(None) => Ok(Seq::empty()),
        Ok(Some(len)) => prepend(seq![rem.take(len)], parse_opcodes(rem.skip(len))),
        Err(e) => Err(e),
    }
}

/// The bytes of the form package whose body is `body`.
pub open spec fn form_package_bytes(body: Seq<u8>) -> Seq<u8> {
    u24_bytes(4 + body.len() as int).push(HiiPackageType::Forms.spec_tag()) + body
}

/// A form package is read back as it was built: it is a whole package of the
/// form type, and its body is the body that was supplied.
pub proof fn lemma_built_form_decodes(body: Seq<u8>)
    requires
        4 + body.len() <= MAX_PACKAGE_LENGTH,
    ensures
        ({
            let p = form_package_bytes(body);
            &&& crate::package_header::is_package_bytes(p)
            &&& p[3] == HiiPackageType::Forms.spec_tag()
            &&& p.skip(4) == body
        }),
{
    let p = form_package_bytes(body);
    crate::wire::lemma_read_written(4 + body.len() as int);
    assert(p.subrange(0, 3) =~= u24_bytes(4 + body.len() as int));
    assert(p.skip(4) =~= body);
}

/// A package seen as a form package: its body is opcode records.
#[derive(Clone, Copy)]
pub struct HiiFormPackageHdr<'a> {
    pub parts: UndefineHiiPackageHdr<'a>,
}

impl<'a> PackageHeader<'a> for HiiFormPackageHdr<'a> {
    const PACKAGE_TYPE: HiiPackageType = HiiPackageType::Forms;

    open spec fn parts(&self) -> UndefineHiiPackageHdr<'a> {
        self.parts
    }

    fn from_undef(pack_head: &UndefineHiiPackageHdr<'a>) -> (r: Self) {
        Self { parts: *pack_head }
    }

    fn header(&self) -> (r: EfiHiiPackageHeader) {
        self.parts.header()
    }
}

impl<'a> HiiFormPackageHdr<'a> {
    /// The body of the package: the bytes that follow its header.
    pub fn as_data(&self) -> (r: &'a [u8])
        requires
            self.parts.wf(),
        ensures
            r@ == self.parts@.skip(4),
    {
        let bytes: &'a [u8] = self.parts.get_slice();
        vstd::slice::slice_subrange(bytes, PACKAGE_HEADER_SIZE, bytes.len())
    }

    /// The cursor over the opcode records of the package.
    pub fn into_iter(self) -> (r: EfiOpHeaderIter<'a>)
        requires
            self.parts.wf(),
        ensures
            r.wf(),
            r.buffer() == self.parts@.skip(4),
            r.position() == 0,
            r@ == self.parts@.skip(4),
    {
        EfiOpHeaderIter::from_slice(self.as_data())
    }

    /// The number of opcode records of the package; or the first defect that a
    /// walk over them meets.
    #[verifier::loop_isolation(false)]
    pub fn count_op_codes(self) -> (r: Result<usize, HiiError>)
        requires
            self.parts.wf(),
        ensures
            match parse_opcodes(self.parts@.skip(4)) {
                Ok(records) => r matches Ok(count) && count == records.len(),
                Err(e) => r matches Err(f) && f == e,
            },
    {
        let start = self.into_iter();
        let mut cursor = start;
        let mut count: usize = 0;
        let ghost mut seen: Seq<Seq<u8>> = Seq::empty();
        loop
            invariant
                cursor.wf(),
                parse_opcodes(start@) == prepend(seen, parse_opcodes(cursor@)),
                count == seen.len(),
                count <= cursor.position(),
            decreases cursor@.len(),
        {
            match cursor.next() {
                Ok(Some(opcode)) => {
                    proof {
                        lemma_prepend_push(seen, opcode@, parse_opcodes(cursor@));
                        seen = seen.push(opcode@);
                    }
                    count = count + 1;
                },
                Ok(None) => {
                    proof {
                        assert(seen + Seq::<Seq<u8>>::empty() =~= seen);
                    }
                    return Ok(count);
                },
                Err(e) => {
                    return Err(e);
                },
            }
        }
    }

    /// Builds the form package whose body is `pack_data`; `LengthOverflow`
    /// when the package would be longer than the length field of a package
    /// header can state.
    ///
    /// The body is taken as it is: whether it is made of opcode records is
    /// not looked at.
    pub fn create(pack_data: &[u8]) -> (r: Result<HiiPackage, HiiError>)
        ensures
            match r {
                Ok(package) => 4 + pack_data@.len() <= MAX_PACKAGE_LENGTH && package@
                    == form_package_bytes(pack_data@) && package.is_package(),
                Err(e) => 4 + pack_data@.len() > MAX_PACKAGE_LENGTH && e
                    == HiiError::LengthOverflow,
            },
    {
        if pack_data.len() > MAX_PACKAGE_LENGTH as usize - PACKAGE_HEADER_SIZE {
            return Err(HiiError::LengthOverflow);
        }
        let length: usize = pack_data.len() + PACKAGE_HEADER_SIZE;
        let head = EfiHiiPackageHeader::new(length as u32, HiiPackageType::Forms).unwrap();
        let mut form_pack: Vec<u8> = Vec::with_capacity(length);
        let head_bytes: [u8; 4] = head.to_bytes();
        push_all(&mut form_pack, head_bytes.as_slice());
        push_all(&mut form_pack, pack_data);
        proof {
            assert(form_pack@ =~= form_package_bytes(pack_data@));
            assert(form_pack@.subrange(0, 4) =~= head.spec_bytes());
            assert(crate::wire::u24_at(form_pack@, 0) == head.spec_length());
        }
        Ok(HiiPackage::new(form_pack))
    }
}

/// One opcode record inside a buffer: the buffer and the position of the
/// record's first byte in it.
///
/// Its value as a sequence of bytes, `self@`, is the whole record.
#[derive(Clone, Copy)]
pub struct EfiOpHeader<'a> {
    pub(crate) buf: &'a [u8],
    pub(crate) location: usize,
}

impl<'a> View for EfiOpHeader<'a> {
    type V = Seq<u8>;

    open spec fn view(&self) -> Seq<u8> {
        self.buffer().subrange(self.position(), self.position() + self.spec_len())
    }
}

impl<'a> EfiOpHeader<'a> {
    /// The buffer that holds the record.
    pub closed spec fn buffer(self) -> Seq<u8> {
        self.buf@
    }

    /// The position of the record's first byte in the buffer.
    pub closed spec fn position(self) -> int {
        self.location as int
    }

    /// The length that the record states: that of the whole record.
    pub open spec fn spec_len(self) -> int {
        op_length(self.buffer()[self.position() + 1])
    }

    /// The record lies inside the buffer and is at least as long as its two
    /// leading bytes.
    pub open spec fn wf(self) -> bool {
        &&& 0 <= self.position()
        &&& self.position() + 2 <= self.buffer().len()
        &&& 2 <= self.spec_len()
        &&& self.position() + self.spec_len() <= self.buffer().len()
    }

    /// The record that starts at `location` in `buf`.
    fn new(buf: &'a [u8], location: usize) -> (r: Self)
        ensures
            r.buffer() == buf@,
            r.position() == location,
    {
        Self { buf, location }
    }

    /// The code of the record's operator.
    pub fn op_code(&self) -> (r: u8)
        requires
            self.wf(),
        ensures
            r == self@[0],
    {
        self.buf[self.location]
    }

    /// The length of the record, its two leading bytes included.
    pub fn len(&self) -> (r: usize)
        requires
            self.wf(),
        ensures
            r == self.spec_len(),
            r == op_length(self@[1]),
            2 <= r <= 127,
    {
        proof {
            crate::wire::lemma_len_fits(self.buf);
        }
        let b: u8 = self.buf[self.location + 1];
        assert(b & 0x7f <= 127) by (bit_vector);
        (b & 0x7f) as usize
    }

    /// The scope flag of the record: `0x80` when the record opens a scope, 0
    /// when it does not.
    pub fn scope(&self) -> (r: u8)
        requires
            self.wf(),
        ensures
            r == op_scope(self@[1]),
            r == 0 || r == 0x80,
    {
        proof {
            crate::wire::lemma_len_fits(self.buf);
        }
        let b: u8 = self.buf[self.location + 1];
        assert(b & 0x80 == 0 || b & 0x80 == 0x80) by (bit_vector);
        b & 0x80
    }

    /// The payload of the record: the bytes that follow its two leading
    /// bytes; `None` when there are none.
    pub fn get_data(&self) -> (r: Option<&'a [u8]>)
        requires
            self.wf(),
        ensures
            match r {
                Some(data) => self@.len() > 2 && data@ == self@.skip(2),
                None => self@.len() == 2,
            },
    {
        let len: usize = self.len();
        if len == OP_HEADER_SIZE {
            return None;
        }
        proof {
            crate::wire::lemma_len_fits(self.buf);
        }
        let data: &'a [u8] = vstd::slice::slice_subrange(
            self.buf,
            self.location + OP_HEADER_SIZE,
            self.location + len,
        );
        assert(data@ =~= self@.skip(2));
        Some(data)
    }
}

/// A cursor over the opcode records of a form package.
///
/// It holds the bytes that the records stand in and the position of the next
/// record. Its value as a sequence of bytes, `self@`, is what remains from
/// that position on.
#[derive(Clone, Copy)]
pub struct EfiOpHeaderIter<'a> {
    pub(crate) buf: &'a [u8],
    pub(crate) location: usize,
}

impl<'a> View for EfiOpHeaderIter<'a> {
    type V = Seq<u8>;

    open spec fn view(&self) -> Seq<u8> {
        self.buffer().skip(self.position())
    }
}

impl<'a> EfiOpHeaderIter<'a> {
    /// The bytes that the cursor walks.
    pub closed spec fn buffer(self) -> Seq<u8> {
        self.buf@
    }

    /// The position of the next record: the number of bytes walked so far.
    pub closed spec fn position(self) -> int {
        self.location as int
    }

    /// The position lies inside the bytes or at their end.
    pub open spec fn wf(self) -> bool {
        0 <= self.position() <= self.buffer().len()
    }

    /// The cursor at the front of `start`, the body of a form package.
    pub fn from_slice(start: &'a [u8]) -> (r: Self)
        ensures
            r.wf(),
            r.buffer() == start@,
            r.position() == 0,
            r@ == start@,
    {
        let cursor = Self { buf: start, location: 0 };
        proof {
            assert(cursor@ =~= start@);
        }
        cursor
    }

    /// The position of the cursor is an index that the machine can hold.
    pub proof fn lemma_position_fits(self)
        ensures
            self.position() <= usize::MAX,
    {
    }

    /// The position of the next record: the number of bytes walked so far.
    pub fn location(&self) -> (r: usize)
        ensures
            r == self.position(),
    {
        self.location
    }

    /// Yields the next opcode record and moves past it.
    ///
    /// At the end of the body it yields `None`. A record that does not fit
    /// into what remains, or whose stated length is below two, is reported,
    /// and the cursor then stands at the end.
    pub fn next(&mut self) -> (r: Result<Option<EfiOpHeader<'a>>, HiiError>)
        requires
            old(self).wf(),
        ensures
            final(self).wf(),
            final(self).buffer() == old(self).buffer(),
            match opcode_step(old(self)@) {
                Ok(Some(len)) => {
                    &&& r matches Ok(Some(opcode))
                    &&& opcode.wf()
                    &&& opcode.buffer() == old(self).buffer()
                    &&& opcode.position() == old(self).position()
                    &&& opcode@ == old(self)@.take(len)
                    &&& final(self).position() == old(self).position() + len
                    &&& final(self)@ == old(self)@.skip(len)
                },
                Ok(None) => r matches Ok(None) && final(self).position() == old(self).position(),
                Err(e) => r matches Err(f) && f == e && final(self)@.len() == 0,
            },
    {
        let end: usize = self.buf.len();
        if self.location == end {
            return Ok(None);
        }
        if end - self.location < OP_HEADER_SIZE {
            self.location = end;
            return Err(HiiError::TruncatedBuffer);
        }
        let b: u8 = self.buf[self.location + 1];
        assert(b & 0x7f <= 127) by (bit_vector);
        let len: usize = (b & 0x7f) as usize;
        assert(old(self)@[1] == b);
        if len < OP_HEADER_SIZE {
            self.location = end;
            return Err(HiiError::InvalidLength);
        }
        if len > end - self.location {
            self.location = end;
            return Err(HiiError::TruncatedBuffer);
        }
        let opcode = EfiOpHeader::new(self.buf, self.location);
        self.location = self.location + len;
        proof {
            assert(opcode@ =~= old(self)@.take(len as int));
            assert(self@ =~= old(self)@.skip(len as int));
        }
        Ok(Some(opcode))
    }
}

} // verus!
