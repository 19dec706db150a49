//! End packages: the package that closes a package list.
use vstd::prelude::*;
use crate::package_header::types::undefine_package::UndefineHiiPackageHdr;
use crate::package_header::{
    EfiHiiPackageHeader, HiiPackage, HiiPackageType, PackageHeader, PACKAGE_HEADER_SIZE,
};

verus! {

/// A package seen as an end package: a header and nothing else.
#[derive(Clone, Copy)]
pub struct HiiEndPackageHdr<'a> {
    pub parts: UndefineHiiPackageHdr<'a>,
}

impl<'a> PackageHeader<'a> for HiiEndPackageHdr<'a> {
    const PACKAGE_TYPE: HiiPackageType = HiiPackageType::End;

    open spec fn parts(&self) -> UndefineHiiPackageHdr<'a> {
        self.parts
    }

    fn from_undef(pack_head: &UndefineHiiPackageHdr<'a>) -> (r: Self) {
        Self { parts: *pack_head }
    }

    fn header(&self) -> (r: EfiHiiPackageHeader) {
        self.parts.header()
    }
}

/// The bytes of an end package: a header that states its own length, four, and
/// the type of an end package.
pub open spec fn end_package_bytes() -> Seq<u8> {
    seq![4u8, 0u8, 0u8, 0xDFu8]
}

impl<'a> HiiEndPackageHdr<'a> {
    /// Builds an end package.
    pub fn create() -> (r: HiiPackage)
        ensures
            r@ == end_package_bytes(),
            r.is_package(),
    {
        let mut bytes: Vec<u8> = Vec::with_capacity(PACKAGE_HEADER_SIZE);
        bytes.push(PACKAGE_HEADER_SIZE as u8);
        bytes.push(0);
        bytes.push(0);
        bytes.push(HiiPackageType::End.tag());
        assert(bytes@ =~= end_package_bytes());
        HiiPackage::new(bytes)
    }
}

} // verus!
