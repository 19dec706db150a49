//! A package of any type, as a cursor finds it in a buffer.
use vstd::prelude::*;
use crate::error::HiiError;
use crate::package_header::{package_step, EfiHiiPackageHeader};
use crate::wire::{read_u24, u24_at};

verus! {

/// A package inside a buffer: the buffer, the position of the package's first
/// byte in it, and the package's header.
///
/// The view owns nothing. Its value as a sequence of bytes, `self@`, is the
/// whole package, header and body.
#[derive(Clone, Copy)]
pub struct UndefineHiiPackageHdr<'a> {
    pub(crate) header: EfiHiiPackageHeader,
    pub(crate) buf: &'a [u8],
    pub(crate) location: usize,
}

impl<'a> View for UndefineHiiPackageHdr<'a> {
    type V = Seq<u8>;

    open spec fn view(&self) -> Seq<u8> {
        self.buffer().subrange(self.position(), self.position() + self.spec_len())
    }
}

impl<'a> UndefineHiiPackageHdr<'a> {
    /// The buffer that holds the package.
    pub closed spec fn buffer(self) -> Seq<u8> {
        self.buf@
    }

    /// The position of the package's first byte in the buffer.
    pub closed spec fn position(self) -> int {
        self.location as int
    }

    /// The header of the package.
    pub closed spec fn spec_header(self) -> EfiHiiPackageHeader {
        self.header
    }

    /// The number of bytes of the package, header included.
    pub open spec fn spec_len(self) -> int {
        self.spec_header().spec_length()
    }

    /// The package lies inside the buffer, is at least as long as a header, and
    /// the header is the one that stands at its position.
    pub open spec fn wf(self) -> bool {
        &&& 0 <= self.position()
        &&& self.position() + 4 <= self.buffer().len()
        &&& self.spec_header() == EfiHiiPackageHeader::spec_decode(self.buffer(), self.position())
        &&& 4 <= self.spec_len()
        &&& self.position() + self.spec_len() <= self.buffer().len()
    }

    /// The package that starts at `location` in `buf`.
    pub(crate) fn at(buf: &'a [u8], location: usize) -> (r: Self)
        requires
            location + 4 <= buf@.len(),
            4 <= u24_at(buf@, location as int),
            location + u24_at(buf@, location as int) <= buf@.len(),
        ensures
            r.wf(),
            r.buffer() == buf@,
            r.position() == location,
            r.spec_len() == u24_at(buf@, location as int),
    {
        Self { header: EfiHiiPackageHeader::decode(buf, location), buf, location }
    }

    /// The package that starts at `location` in `buf`, once it is known to lie
    /// in `buf`; or what is wrong with it.
    ///
    /// The package is held to what a cursor holds the next package to: the
    /// bytes of `buf` from `location` on must hold its header, and the length
    /// that the header states must cover the header and end inside `buf`. No
    /// byte at `location`, and a `location` behind the end of `buf`, is
    /// `TruncatedBuffer`.
    pub fn try_at(buf: &'a [u8], location: usize) -> (r: Result<Self, HiiError>)
        ensures
            match r {
                Ok(p) => {
                    &&& location <= buf@.len()
                    &&& package_step(buf@.skip(location as int)) == Ok::<Option<int>, HiiError>(
                        Some(p.spec_len()),
                    )
                    &&& p.wf()
                    &&& p.buffer() == buf@
                    &&& p.position() == location
                    &&& p@ == buf@.skip(location as int).take(p.spec_len())
                },
                Err(e) => if location < buf@.len() {
                    package_step(buf@.skip(location as int)) == Err::<Option<int>, HiiError>(e)
                } else {
                    e == HiiError::TruncatedBuffer
                },
            },
    {
        let end: usize = buf.len();
        if location >= end || end - location < 4 {
            return Err(HiiError::TruncatedBuffer);
        }
        let len: usize = read_u24(buf, location) as usize;
        assert(u24_at(buf@.skip(location as int), 0) == len);
        if len < 4 {
            return Err(HiiError::InvalidLength);
        }
        if len > end - location {
            return Err(HiiError::TruncatedBuffer);
        }
        let package = Self::at(buf, location);
        proof {
            assert(package@ =~= buf@.skip(location as int).take(len as int));
        }
        Ok(package)
    }

    /// The name of the package's type, `UNKNOWN` for a tag that has none.
    pub fn package_type(&self) -> (r: String)
        ensures
            r@ == package_type_name(self.spec_header().pack_type),
    {
        match self.header.pack_type {
            0x00 => "ALL".to_owned(),
            0x01 => "GUID".to_owned(),
            0x02 => "FORMS".to_owned(),
            0x04 => "STRINGS".to_owned(),
            0x05 => "FONTS".to_owned(),
            0x06 => "IMAGES".to_owned(),
            0x07 => "SIMPLE_FONTS".to_owned(),
            0x08 => "DEVICE_PATH".to_owned(),
            0x09 => "KEYBOARD_LAYOU".to_owned(),
            0x0A => "ANIMATIONS".to_owned(),
            0xDF => "END".to_owned(),
            0xE0 => "SYSTEM_BEGIN".to_owned(),
            0xFF => "SYSTEM_END".to_owned(),
            _ => "UNKNOWN".to_owned(),
        }
    }

    /// The header of the package.
    pub fn header(&self) -> (r: EfiHiiPackageHeader)
        ensures
            r == self.spec_header(),
    {
        self.header
    }

    /// The number of bytes of the package, header included.
    pub fn len(&self) -> (r: u32)
        ensures
            r == self.spec_len(),
    {
        self.header.length()
    }

    /// The position of the package's first byte in the buffer that holds it.
    pub fn as_ptr(self) -> (r: usize)
        ensures
            r == self.position(),
    {
        self.location
    }

    /// The bytes of the package, header and body.
    pub fn get_slice(self) -> (r: &'a [u8])
        requires
            self.wf(),
        ensures
            r@ == self@,
    {
        let len: usize = self.header.length() as usize;
        proof {
            crate::wire::lemma_len_fits(self.buf);
        }
        vstd::slice::slice_subrange(self.buf, self.location, self.location + len)
    }
}

/// The name under which a package type is shown.
pub open spec fn package_type_name(tag: u8) -> Seq<char> {
    if tag == 0x00 {
        "ALL"@
    } else if tag == 0x01 {
        "GUID"@
    } else if tag == 0x02 {
        "FORMS"@
    } else if tag == 0x04 {
        "STRINGS"@
    } else if tag == 0x05 {
        "FONTS"@
    } else if tag == 0x06 {
        "IMAGES"@
    } else if tag == 0x07 {
        "SIMPLE_FONTS"@
    } else if tag == 0x08 {
        "DEVICE_PATH"@
    } else if tag == 0x09 {
        "KEYBOARD_LAYOU"@
    } else if tag == 0x0A {
        "ANIMATIONS"@
    } else if tag == 0xDF {
        "END"@
    } else if tag == 0xE0 {
        "SYSTEM_BEGIN"@
    } else if tag == 0xFF {
        "SYSTEM_END"@
    } else {
        "UNKNOWN"@
    }
}

} // verus!
