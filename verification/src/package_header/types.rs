//! The views of a package: the untyped one that a cursor yields, and one for
//! each package type whose body this crate reads or builds.
pub mod end_package;
pub mod font_package;
pub mod form_package;
pub mod string_package;
pub mod undefine_package;

pub use end_package::HiiEndPackageHdr;
pub use font_package::HiiFontPackageHdr;
pub use form_package::ifr_parse;
pub use form_package::{EfiOpHeader, EfiOpHeaderIter, HiiFormPackageHdr};
pub use string_package::{
    EfiHiiSibt, HiiStringBlockIter, HiiStringPackageHdr, UndefineHiiStringBlock,
};
pub use undefine_package::UndefineHiiPackageHdr;
