//! Strings of the firmware: UCS-2 text and Latin-1 language names.
//!
//! The firmware's string types come from the `uefi` crate. Verified code never
//! looks inside them: it moves between them and plain code units or bytes
//! through the functions of this module, whose contracts are taken from the
//! `uefi` sources and are not proved here.
//!
//! A string that was read from a buffer is a `HiiString`. It holds whatever
//! code units stood before the zero unit, also a surrogate, which the string
//! types of `uefi` refuse.
use vstd::prelude::*;
use uefi::{CStr8, CString16};

verus! {

/// `uefi::CString16`, an owned UCS-2 string that ends with a zero unit.
/// Verified code carries it through and never looks inside.
#[verifier::external_type_specification]
#[verifier::external_body]
pub struct ExCString16(uefi::CString16);

/// `uefi::Char8`, a Latin-1 character; declared because `uefi::CStr8` is made
/// of it. No verified code holds one.
#[verifier::external_type_specification]
#[verifier::external_body]
pub struct ExChar8(uefi::Char8);

/// `uefi::CStr8`, a borrowed Latin-1 string that ends with a zero byte.
/// Verified code carries it through and never looks inside.
#[verifier::external_type_specification]
#[verifier::external_body]
pub struct ExCStr8(uefi::CStr8);

/// The code units of an owned UCS-2 string, without the zero unit that ends it.
pub uninterp spec fn cstring16_text(s: CString16) -> Seq<u16>;

/// The bytes of a Latin-1 string, with the zero byte that ends it.
pub uninterp spec fn cstr8_bytes(s: &CStr8) -> Seq<u8>;

/// Whether `text` can stand in a UCS-2 string before the zero unit that ends
/// it: no unit is zero and none is a surrogate.
pub open spec fn is_ucs2_text(text: Seq<u16>) -> bool {
    forall|i: int| 0 <= i < text.len() ==> is_ucs2_unit(#[trigger] text[i])
}

/// Whether `unit` is a character of its own and not the zero unit.
pub open spec fn is_ucs2_unit(unit: u16) -> bool {
    unit != 0 && !(0xD800 <= unit <= 0xDFFF)
}

/// Whether `units` is a whole UCS-2 string: text, then the zero unit.
pub open spec fn is_ucs2_string(units: Seq<u16>) -> bool {
    units.len() > 0 && units.last() == 0 && is_ucs2_text(units.drop_last())
}

/// Whether `units` end with the only zero unit among them.
pub open spec fn is_terminated(units: Seq<u16>) -> bool {
    &&& units.len() > 0
    &&& units.last() == 0
    &&& forall|i: int| 0 <= i < units.len() - 1 ==> (#[trigger] units[i]) != 0
}

/// The character that a code unit is shown as: the character whose code point
/// the unit is, and the replacement character U+FFFD for a surrogate, which is
/// no character.
pub open spec fn unit_char(unit: u16) -> char {
    if 0xD800 <= unit <= 0xDFFF {
        '\u{FFFD}'
    } else {
        (unit as u32) as char
    }
}

/// The text that the code units of `text` are shown as, one character for
/// each unit.
pub open spec fn ucs2_text(text: Seq<u16>) -> Seq<char> {
    Seq::new(text.len(), |i: int| unit_char(text[i]))
}

/// The strings of `strings`, each as the sequence of its code units.
pub open spec fn units_of(strings: Seq<Vec<u16>>) -> Seq<Seq<u16>> {
    Seq::new(strings.len(), |i: int| strings[i]@)
}

/// `CStr16::to_u16_slice`, reached from a `CString16` by dereferencing it: the
/// code units of the string without the trailing zero unit, copied out.
///
/// That the text holds no zero unit and no surrogate is what the safe
/// constructors of `CString16` and `Char16` check; a string made through the
/// unsafe ones is not covered.
#[verifier::external_body]
pub(crate) fn cstring16_units(s: &CString16) -> (text: Vec<u16>)
    ensures
        text@ == cstring16_text(*s),
        is_ucs2_text(text@),
{
    s.to_u16_slice().to_vec()
}

/// `CString16::try_from` for a vector of code units: the string made of
/// `units`, provided that they end with the only zero unit among them and hold
/// no surrogate; `None` for every other input.
#[verifier::external_body]
pub(crate) fn cstring16_from_units(units: Vec<u16>) -> (r: Option<CString16>)
    ensures
        r is Some <==> is_ucs2_string(units@),
        r matches Some(s) ==> cstring16_text(s) == units@.drop_last(),
{
    CString16::try_from(units).ok()
}

/// `CStr8::as_bytes`: the bytes of the string, the trailing zero byte included.
///
/// That the bytes end with a zero byte is what the safe constructor of `CStr8`
/// checks; a string made through the unsafe ones is not covered.
#[verifier::external_body]
pub(crate) fn cstr8_as_bytes<'a>(s: &'a CStr8) -> (bytes: &'a [u8])
    ensures
        bytes@ == cstr8_bytes(s),
        bytes@.len() > 0,
        bytes@.last() == 0,
{
    s.as_bytes()
}

/// The language that is asked for with the bytes `bytes` of a Latin-1 string:
/// the bytes without the zero byte that ends the string. A language name
/// stands in a string package without such a byte.
pub open spec fn requested_language(bytes: Seq<u8>) -> Seq<u8> {
    if bytes.len() > 0 && bytes.last() == 0 {
        bytes.drop_last()
    } else {
        bytes
    }
}

/// The language that is asked for with `language`: its bytes without the zero
/// byte that ends it.
pub fn language_bytes<'a>(language: &'a CStr8) -> (r: &'a [u8])
    ensures
        r@ == requested_language(cstr8_bytes(language)),
        r@ == cstr8_bytes(language).drop_last(),
{
    let bytes: &'a [u8] = cstr8_as_bytes(language);
    let len: usize = bytes.len();
    if len > 0 && bytes[len - 1] == 0 {
        let text: &'a [u8] = vstd::slice::slice_subrange(bytes, 0, len - 1);
        assert(text@ =~= bytes@.drop_last());
        text
    } else {
        bytes
    }
}

/// `String::push`: `ch` is appended to the string.
pub assume_specification[ String::push ](s: &mut String, ch: char)
    ensures
        final(s)@ == old(s)@.push(ch),
;

/// `char::from_u32`: the character whose code point is `i`; `None` when `i`
/// is a surrogate or lies above the last code point, and only then.
pub assume_specification[ char::from_u32 ](i: u32) -> (r: Option<char>)
    ensures
        r is Some <==> (i <= 0xD7FF || 0xE000 <= i <= 0x10FFFF),
        r matches Some(c) ==> c as u32 == i,
;

/// The text that `units` are shown as: one character for each unit, the
/// replacement character U+FFFD for a surrogate.
pub fn text_of_units(units: &[u16]) -> (r: String)
    ensures
        r@ == ucs2_text(units@),
{
    let mut text = String::new();
    let mut i: usize = 0;
    while i < units.len()
        invariant
            i <= units@.len(),
            text@ == ucs2_text(units@.subrange(0, i as int)),
        decreases units@.len() - i,
    {
        let unit: u16 = units[i];
        let shown: char = match char::from_u32(unit as u32) {
            Some(c) => {
                proof {
                    vstd::utf8::char_u32_cast(c, unit as u32);
                }
                c
            },
            None => '\u{FFFD}',
        };
        text.push(shown);
        i = i + 1;
        assert(text@ =~= ucs2_text(units@.subrange(0, i as int)));
    }
    assert(units@.subrange(0, i as int) =~= units@);
    text
}

/// A UCS-2 string as it stands in a buffer: code units that end with the only
/// zero unit among them.
///
/// Its value as a sequence, `self@`, is the code units, the zero unit
/// included. The units before the zero unit may be any but zero.
pub struct HiiString {
    units: Vec<u16>,
}

impl View for HiiString {
    type V = Seq<u16>;

    closed spec fn view(&self) -> Seq<u16> {
        self.units@
    }
}

impl HiiString {
    /// The code units end with the only zero unit among them.
    pub open spec fn wf(self) -> bool {
        is_terminated(self@)
    }

    /// The code units before the zero unit.
    pub open spec fn text(self) -> Seq<u16> {
        self@.drop_last()
    }

    /// The string made of `units`, provided that they end with the only zero
    /// unit among them; `None` for all other units.
    pub fn new(units: Vec<u16>) -> (r: Option<Self>)
        ensures
            r is Some <==> is_terminated(units@),
            r matches Some(s) ==> s@ == units@ && s.wf(),
    {
        let len: usize = units.len();
        if len == 0 || units[len - 1] != 0 {
            return None;
        }
        let mut i: usize = 0;
        while i < len - 1
            invariant
                len == units@.len(),
                len > 0,
                i <= len - 1,
                forall|k: int| 0 <= k < i ==> (#[trigger] units@[k]) != 0,
            decreases len - i,
        {
            if units[i] == 0 {
                return None;
            }
            i = i + 1;
        }
        Some(Self { units })
    }

    /// The string made of `units`, which are known to end with the only zero
    /// unit among them.
    pub(crate) fn of_terminated(units: Vec<u16>) -> (r: Self)
        requires
            is_terminated(units@),
        ensures
            r@ == units@,
            r.wf(),
    {
        Self { units }
    }

    /// The code units of the string, the zero unit included.
    pub fn units(&self) -> (r: &Vec<u16>)
        ensures
            r@ == self@,
    {
        &self.units
    }

    /// The number of code units before the zero unit.
    pub fn num_chars(&self) -> (r: usize)
        requires
            self.wf(),
        ensures
            r == self.text().len(),
    {
        self.units.len() - 1
    }

    /// The string as one of the firmware's own, which holds no surrogate;
    /// `None` for a string that holds one, and for no other.
    pub fn to_cstring16(&self) -> (r: Option<CString16>)
        requires
            self.wf(),
        ensures
            r is Some <==> is_ucs2_text(self.text()),
            r matches Some(s) ==> cstring16_text(s) == self.text(),
    {
        let copy: Vec<u16> = vstd::slice::slice_to_vec(self.units.as_slice());
        proof {
            assert(is_ucs2_string(self@) <==> is_ucs2_text(self.text()));
        }
        cstring16_from_units(copy)
    }

    /// The text of the string: one character for each code unit before the
    /// zero unit, the replacement character U+FFFD for a surrogate.
    pub fn to_string(&self) -> (r: String)
        requires
            self.wf(),
        ensures
            r@ == ucs2_text(self.text()),
    {
        let len: usize = self.units.len();
        let text: &[u16] = vstd::slice::slice_subrange(self.units.as_slice(), 0, len - 1);
        assert(text@ =~= self.text());
        text_of_units(text)
    }
}

} // verus!
