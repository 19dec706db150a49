//! Font packages: the two glyph counts at the front of the body.
use vstd::prelude::*;
use crate::error::HiiError;
use crate::package_header::types::undefine_package::UndefineHiiPackageHdr;
use crate::package_header::{EfiHiiPackageHeader, HiiPackageType, PackageHeader};
use crate::wire::{read_u16, u16_at};

verus! {

/// Number of bytes of a font package up to the end of its glyph counts.
pub const FONT_PACKAGE_COUNTS_END: usize = 8;

/// A package seen as a font package.
#[derive(Clone, Copy)]
pub struct HiiFontPackageHdr<'a> {
    pub parts: UndefineHiiPackageHdr<'a>,
}

impl<'a> PackageHeader<'a> for HiiFontPackageHdr<'a> {
    const PACKAGE_TYPE: HiiPackageType = HiiPackageType::Fonts;

    open spec fn parts(&self) -> UndefineHiiPackageHdr<'a> {
        self.parts
    }

    fn from_undef(pack_head: &UndefineHiiPackageHdr<'a>) -> (r: Self) {
        Self { parts: *pack_head }
    }

    fn header(&self) -> (r: EfiHiiPackageHeader) {
        self.parts.header()
    }
}

impl<'a> HiiFontPackageHdr<'a> {
    /// The 16-bit value at `offset` in the package, or `TruncatedBuffer` when
    /// the package ends before the glyph counts do.
    fn count_at(&self, offset: usize) -> (r: Result<u16, HiiError>)
        requires
            self.parts.wf(),
            offset + 2 <= FONT_PACKAGE_COUNTS_END,
        ensures
            match r {
                Ok(count) => self.parts@.len() >= 8 && count == u16_at(
                    self.parts@,
                    offset as int,
                ),
                Err(e) => self.parts@.len() < 8 && e == HiiError::TruncatedBuffer,
            },
    {
        let bytes: &[u8] = self.parts.get_slice();
        if bytes.len() < FONT_PACKAGE_COUNTS_END {
            Err(HiiError::TruncatedBuffer)
        } else {
            Ok(read_u16(bytes, offset))
        }
    }

    /// The number of narrow glyphs, which stands at offset 4 of the package;
    /// or `TruncatedBuffer` when the package ends before the glyph counts do.
    pub fn number_of_narrow_glyphs(&self) -> (r: Result<u16, HiiError>)
        requires
            self.parts.wf(),
        ensures
            match r {
                Ok(count) => self.parts@.len() >= 8 && count == u16_at(self.parts@, 4),
                Err(e) => self.parts@.len() < 8 && e == HiiError::TruncatedBuffer,
            },
    {
        self.count_at(4)
    }

    /// The number of wide glyphs, which stands at offset 6 of the package; or
    /// `TruncatedBuffer` when the package ends before the glyph counts do.
    pub fn number_of_wide_glyphs(&self) -> (r: Result<u16, HiiError>)
        requires
            self.parts.wf(),
        ensures
            match r {
                Ok(count) => self.parts@.len() >= 8 && count == u16_at(self.parts@, 6),
                Err(e) => self.parts@.len() < 8 && e == HiiError::TruncatedBuffer,
            },
    {
        self.count_at(6)
    }
}

} // verus!
