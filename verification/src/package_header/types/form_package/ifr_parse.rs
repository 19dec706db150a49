//! The operators of the forms representation: their codes, and the two
//! classes, expression and statement, that the codes fall into.
use vstd::prelude::*;
use crate::error::HiiError;
use crate::records::{lemma_prepend_push, prepend};
use crate::package_header::types::form_package::{
    parse_opcodes, EfiOpHeaderIter, HiiFormPackageHdr,
};

verus! {

/// The code of the last operator that has a name.
pub const LAST_OP_CODE: u8 = 0x64;

/// The operators that have a name.
#[derive(Debug, Clone, Copy, PartialEq, Eq, Structural)]
pub enum EfiIfrOpCode {
    FormOp,
    SubtitleOp,
    TextOp,
    ImageOp,
    OneOfOp,
    CheckboxOp,
    NumericOp,
    PasswordOp,
    OneOfOptionOp,
    SuppressIfOp,
    LockedOp,
    ActionOp,
    ResetButtonOp,
    FormSetOp,
    RefOp,
    NoSubmitIfOp,
    InconsistentIfOp,
    EqIdValOp,
    EqIdIdOp,
    EqIdValListOp,
    AndOp,
    OrOp,
    NotOp,
    RuleOp,
    GrayOutIfOp,
    DateOp,
    TimeOp,
    StringOp,
    RefreshOp,
    DisableIfOp,
    AnimationOp,
    ToLowerOp,
    ToUpperOp,
    MapOp,
    OrderedListOp,
    VarstoreOp,
    VarstoreNameValueOp,
    VarstoreEfiOp,
    VarstoreDeviceOp,
    VersionOp,
    EndOp,
    MatchOp,
    GetOp,
    SetOp,
    ReadOp,
    WriteOp,
    EqualOp,
    NotEqualOp,
    GreaterThanOp,
    GreaterEqualOp,
    LessThanOp,
    LessEqualOp,
    BitwiseAndOp,
    BitwiseOrOp,
    BitwiseNotOp,
    ShiftLeftOp,
    ShiftRightOp,
    AddOp,
    SubtractOp,
    MultiplyOp,
    DivideOp,
    ModuloOp,
    RuleRefOp,
    QuestionRef1Op,
    QuestionRef2Op,
    Uint8Op,
    Uint16Op,
    Uint32Op,
    Uint64Op,
    TrueOp,
    FalseOp,
    ToUintOp,
    ToStringOp,
    ToBooleanOp,
    MidOp,
    FindOp,
    TokenOp,
    StringRef1Op,
    StringRef2Op,
    ConditionalOp,
    QuestionRef3Op,
    ZeroOp,
    OneOp,
    OnesOp,
    UndefinedOp,
    LengthOp,
    DupOp,
    ThisOp,
    SpanOp,
    ValueOp,
    DefaultOp,
    DefaultStoreOp,
    FormMapOp,
    CatenateOp,
    GuidOp,
    SecurityOp,
    ModalTagOp,
    RefreshIdOp,
    WarningIfOp,
    Match2Op,
}

impl EfiIfrOpCode {
    /// The code that stands for the operator in an opcode record.
    pub open spec fn spec_code(self) -> u8 {
        match self {
            EfiIfrOpCode::FormOp => 0x01,
            EfiIfrOpCode::SubtitleOp => 0x02,
            EfiIfrOpCode::TextOp => 0x03,
            EfiIfrOpCode::ImageOp => 0x04,
            EfiIfrOpCode::OneOfOp => 0x05,
            EfiIfrOpCode::CheckboxOp => 0x06,
            EfiIfrOpCode::NumericOp => 0x07,
            EfiIfrOpCode::PasswordOp => 0x08,
            EfiIfrOpCode::OneOfOptionOp => 0x09,
            EfiIfrOpCode::SuppressIfOp => 0x0A,
            EfiIfrOpCode::LockedOp => 0x0B,
            EfiIfrOpCode::ActionOp => 0x0C,
            EfiIfrOpCode::ResetButtonOp => 0x0D,
            EfiIfrOpCode::FormSetOp => 0x0E,
            EfiIfrOpCode::RefOp => 0x0F,
            EfiIfrOpCode::NoSubmitIfOp => 0x10,
            EfiIfrOpCode::InconsistentIfOp => 0x11,
            EfiIfrOpCode::EqIdValOp => 0x12,
            EfiIfrOpCode::EqIdIdOp => 0x13,
            EfiIfrOpCode::EqIdValListOp => 0x14,
            EfiIfrOpCode::AndOp => 0x15,
            EfiIfrOpCode::OrOp => 0x16,
            EfiIfrOpCode::NotOp => 0x17,
            EfiIfrOpCode::RuleOp => 0x18,
            EfiIfrOpCode::GrayOutIfOp => 0x19,
            EfiIfrOpCode::DateOp => 0x1A,
            EfiIfrOpCode::TimeOp => 0x1B,
            EfiIfrOpCode::StringOp => 0x1C,
            EfiIfrOpCode::RefreshOp => 0x1D,
            EfiIfrOpCode::DisableIfOp => 0x1E,
            EfiIfrOpCode::AnimationOp => 0x1F,
            EfiIfrOpCode::ToLowerOp => 0x20,
            EfiIfrOpCode::ToUpperOp => 0x21,
            EfiIfrOpCode::MapOp => 0x22,
            EfiIfrOpCode::OrderedListOp => 0x23,
            EfiIfrOpCode::VarstoreOp => 0x24,
            EfiIfrOpCode::VarstoreNameValueOp => 0x25,
            EfiIfrOpCode::VarstoreEfiOp => 0x26,
            EfiIfrOpCode::VarstoreDeviceOp => 0x27,
            EfiIfrOpCode::VersionOp => 0x28,
            EfiIfrOpCode::EndOp => 0x29,
            EfiIfrOpCode::MatchOp => 0x2A,
            EfiIfrOpCode::GetOp => 0x2B,
            EfiIfrOpCode::SetOp => 0x2C,
            EfiIfrOpCode::ReadOp => 0x2D,
            EfiIfrOpCode::WriteOp => 0x2E,
            EfiIfrOpCode::EqualOp => 0x2F,
            EfiIfrOpCode::NotEqualOp => 0x30,
            EfiIfrOpCode::GreaterThanOp => 0x31,
            EfiIfrOpCode::GreaterEqualOp => 0x32,
            EfiIfrOpCode::LessThanOp => 0x33,
            EfiIfrOpCode::LessEqualOp => 0x34,
            EfiIfrOpCode::BitwiseAndOp => 0x35,
            EfiIfrOpCode::BitwiseOrOp => 0x36,
            EfiIfrOpCode::BitwiseNotOp => 0x37,
            EfiIfrOpCode::ShiftLeftOp => 0x38,
            EfiIfrOpCode::ShiftRightOp => 0x39,
            EfiIfrOpCode::AddOp => 0x3A,
            EfiIfrOpCode::SubtractOp => 0x3B,
            EfiIfrOpCode::MultiplyOp => 0x3C,
            EfiIfrOpCode::DivideOp => 0x3D,
            EfiIfrOpCode::ModuloOp => 0x3E,
            EfiIfrOpCode::RuleRefOp => 0x3F,
            EfiIfrOpCode::QuestionRef1Op => 0x40,
            EfiIfrOpCode::QuestionRef2Op => 0x41,
            EfiIfrOpCode::Uint8Op => 0x42,
            EfiIfrOpCode::Uint16Op => 0x43,
            EfiIfrOpCode::Uint32Op => 0x44,
            EfiIfrOpCode::Uint64Op => 0x45,
            EfiIfrOpCode::TrueOp => 0x46,
            EfiIfrOpCode::FalseOp => 0x47,
            EfiIfrOpCode::ToUintOp => 0x48,
            EfiIfrOpCode::ToStringOp => 0x49,
            EfiIfrOpCode::ToBooleanOp => 0x4A,
            EfiIfrOpCode::MidOp => 0x4B,
            EfiIfrOpCode::FindOp => 0x4C,
            EfiIfrOpCode::TokenOp => 0x4D,
            EfiIfrOpCode::StringRef1Op => 0x4E,
            EfiIfrOpCode::StringRef2Op => 0x4F,
            EfiIfrOpCode::ConditionalOp => 0x50,
            EfiIfrOpCode::QuestionRef3Op => 0x51,
            EfiIfrOpCode::ZeroOp => 0x52,
            EfiIfrOpCode::OneOp => 0x53,
            EfiIfrOpCode::OnesOp => 0x54,
            EfiIfrOpCode::UndefinedOp => 0x55,
            EfiIfrOpCode::LengthOp => 0x56,
            EfiIfrOpCode::DupOp => 0x57,
            EfiIfrOpCode::ThisOp => 0x58,
            EfiIfrOpCode::SpanOp => 0x59,
            EfiIfrOpCode::ValueOp => 0x5A,
            EfiIfrOpCode::DefaultOp => 0x5B,
            EfiIfrOpCode::DefaultStoreOp => 0x5C,
            EfiIfrOpCode::FormMapOp => 0x5D,
            EfiIfrOpCode::CatenateOp => 0x5E,
            EfiIfrOpCode::GuidOp => 0x5F,
            EfiIfrOpCode::SecurityOp => 0x60,
            EfiIfrOpCode::ModalTagOp => 0x61,
            EfiIfrOpCode::RefreshIdOp => 0x62,
            EfiIfrOpCode::WarningIfOp => 0x63,
            EfiIfrOpCode::Match2Op => 0x64,
        }
    }

    /// The code that stands for the operator in an opcode record.
    pub fn code(self) -> (r: u8)
        ensures
            r == self.spec_code(),
    {
        match self {
            EfiIfrOpCode::FormOp => 0x01,
            EfiIfrOpCode::SubtitleOp => 0x02,
            EfiIfrOpCode::TextOp => 0x03,
            EfiIfrOpCode::ImageOp => 0x04,
            EfiIfrOpCode::OneOfOp => 0x05,
            EfiIfrOpCode::CheckboxOp => 0x06,
            EfiIfrOpCode::NumericOp => 0x07,
            EfiIfrOpCode::PasswordOp => 0x08,
            EfiIfrOpCode::OneOfOptionOp => 0x09,
            EfiIfrOpCode::SuppressIfOp => 0x0A,
            EfiIfrOpCode::LockedOp => 0x0B,
            EfiIfrOpCode::ActionOp => 0x0C,
            EfiIfrOpCode::ResetButtonOp => 0x0D,
            EfiIfrOpCode::FormSetOp => 0x0E,
            EfiIfrOpCode::RefOp => 0x0F,
            EfiIfrOpCode::NoSubmitIfOp => 0x10,
            EfiIfrOpCode::InconsistentIfOp => 0x11,
            EfiIfrOpCode::EqIdValOp => 0x12,
            EfiIfrOpCode::EqIdIdOp => 0x13,
            EfiIfrOpCode::EqIdValListOp => 0x14,
            EfiIfrOpCode::AndOp => 0x15,
            EfiIfrOpCode::OrOp => 0x16,
            EfiIfrOpCode::NotOp => 0x17,
            EfiIfrOpCode::RuleOp => 0x18,
            EfiIfrOpCode::GrayOutIfOp => 0x19,
            EfiIfrOpCode::DateOp => 0x1A,
            EfiIfrOpCode::TimeOp => 0x1B,
            EfiIfrOpCode::StringOp => 0x1C,
            EfiIfrOpCode::RefreshOp => 0x1D,
            EfiIfrOpCode::DisableIfOp => 0x1E,
            EfiIfrOpCode::AnimationOp => 0x1F,
            EfiIfrOpCode::ToLowerOp => 0x20,
            EfiIfrOpCode::ToUpperOp => 0x21,
            EfiIfrOpCode::MapOp => 0x22,
            EfiIfrOpCode::OrderedListOp => 0x23,
            EfiIfrOpCode::VarstoreOp => 0x24,
            EfiIfrOpCode::VarstoreNameValueOp => 0x25,
            EfiIfrOpCode::VarstoreEfiOp => 0x26,
            EfiIfrOpCode::VarstoreDeviceOp => 0x27,
            EfiIfrOpCode::VersionOp => 0x28,
            EfiIfrOpCode::EndOp => 0x29,
            EfiIfrOpCode::MatchOp => 0x2A,
            EfiIfrOpCode::GetOp => 0x2B,
            EfiIfrOpCode::SetOp => 0x2C,
            EfiIfrOpCode::ReadOp => 0x2D,
            EfiIfrOpCode::WriteOp => 0x2E,
            EfiIfrOpCode::EqualOp => 0x2F,
            EfiIfrOpCode::NotEqualOp => 0x30,
            EfiIfrOpCode::GreaterThanOp => 0x31,
            EfiIfrOpCode::GreaterEqualOp => 0x32,
            EfiIfrOpCode::LessThanOp => 0x33,
            EfiIfrOpCode::LessEqualOp => 0x34,
            EfiIfrOpCode::BitwiseAndOp => 0x35,
            EfiIfrOpCode::BitwiseOrOp => 0x36,
            EfiIfrOpCode::BitwiseNotOp => 0x37,
            EfiIfrOpCode::ShiftLeftOp => 0x38,
            EfiIfrOpCode::ShiftRightOp => 0x39,
            EfiIfrOpCode::AddOp => 0x3A,
            EfiIfrOpCode::SubtractOp => 0x3B,
            EfiIfrOpCode::MultiplyOp => 0x3C,
            EfiIfrOpCode::DivideOp => 0x3D,
            EfiIfrOpCode::ModuloOp => 0x3E,
            EfiIfrOpCode::RuleRefOp => 0x3F,
            EfiIfrOpCode::QuestionRef1Op => 0x40,
            EfiIfrOpCode::QuestionRef2Op => 0x41,
            EfiIfrOpCode::Uint8Op => 0x42,
            EfiIfrOpCode::Uint16Op => 0x43,
            EfiIfrOpCode::Uint32Op => 0x44,
            EfiIfrOpCode::Uint64Op => 0x45,
            EfiIfrOpCode::TrueOp => 0x46,
            EfiIfrOpCode::FalseOp => 0x47,
            EfiIfrOpCode::ToUintOp => 0x48,
            EfiIfrOpCode::ToStringOp => 0x49,
            EfiIfrOpCode::ToBooleanOp => 0x4A,
            EfiIfrOpCode::MidOp => 0x4B,
            EfiIfrOpCode::FindOp => 0x4C,
            EfiIfrOpCode::TokenOp => 0x4D,
            EfiIfrOpCode::StringRef1Op => 0x4E,
            EfiIfrOpCode::StringRef2Op => 0x4F,
            EfiIfrOpCode::ConditionalOp => 0x50,
            EfiIfrOpCode::QuestionRef3Op => 0x51,
            EfiIfrOpCode::ZeroOp => 0x52,
            EfiIfrOpCode::OneOp => 0x53,
            EfiIfrOpCode::OnesOp => 0x54,
            EfiIfrOpCode::UndefinedOp => 0x55,
            EfiIfrOpCode::LengthOp => 0x56,
            EfiIfrOpCode::DupOp => 0x57,
            EfiIfrOpCode::ThisOp => 0x58,
            EfiIfrOpCode::SpanOp => 0x59,
            EfiIfrOpCode::ValueOp => 0x5A,
            EfiIfrOpCode::DefaultOp => 0x5B,
            EfiIfrOpCode::DefaultStoreOp => 0x5C,
            EfiIfrOpCode::FormMapOp => 0x5D,
            EfiIfrOpCode::CatenateOp => 0x5E,
            EfiIfrOpCode::GuidOp => 0x5F,
            EfiIfrOpCode::SecurityOp => 0x60,
            EfiIfrOpCode::ModalTagOp => 0x61,
            EfiIfrOpCode::RefreshIdOp => 0x62,
            EfiIfrOpCode::WarningIfOp => 0x63,
            EfiIfrOpCode::Match2Op => 0x64,
        }
    }

    /// The operator that `value` stands for, or `UnrecognizedType` when it
    /// stands for none: the codes of the operators are those from 1 to
    /// `LAST_OP_CODE`.
    pub fn try_from(value: u8) -> (r: Result<Self, HiiError>)
        ensures
            match r {
                Ok(op) => op.spec_code() == value,
                Err(e) => (value == 0 || value > LAST_OP_CODE) && e == HiiError::UnrecognizedType,
            },
    {
        match value {
            0x01 => Ok(EfiIfrOpCode::FormOp),
            0x02 => Ok(EfiIfrOpCode::SubtitleOp),
            0x03 => Ok(EfiIfrOpCode::TextOp),
            0x04 => Ok(EfiIfrOpCode::ImageOp),
            0x05 => Ok(EfiIfrOpCode::OneOfOp),
            0x06 => Ok(EfiIfrOpCode::CheckboxOp),
            0x07 => Ok(EfiIfrOpCode::NumericOp),
            0x08 => Ok(EfiIfrOpCode::PasswordOp),
            0x09 => Ok(EfiIfrOpCode::OneOfOptionOp),
            0x0A => Ok(EfiIfrOpCode::SuppressIfOp),
            0x0B => Ok(EfiIfrOpCode::LockedOp),
            0x0C => Ok(EfiIfrOpCode::ActionOp),
            0x0D => Ok(EfiIfrOpCode::ResetButtonOp),
            0x0E => Ok(EfiIfrOpCode::FormSetOp),
            0x0F => Ok(EfiIfrOpCode::RefOp),
            0x10 => Ok(EfiIfrOpCode::NoSubmitIfOp),
            0x11 => Ok(EfiIfrOpCode::InconsistentIfOp),
            0x12 => Ok(EfiIfrOpCode::EqIdValOp),
            0x13 => Ok(EfiIfrOpCode::EqIdIdOp),
            0x14 => Ok(EfiIfrOpCode::EqIdValListOp),
            0x15 => Ok(EfiIfrOpCode::AndOp),
            0x16 => Ok(EfiIfrOpCode::OrOp),
            0x17 => Ok(EfiIfrOpCode::NotOp),
            0x18 => Ok(EfiIfrOpCode::RuleOp),
            0x19 => Ok(EfiIfrOpCode::GrayOutIfOp),
            0x1A => Ok(EfiIfrOpCode::DateOp),
            0x1B => Ok(EfiIfrOpCode::TimeOp),
            0x1C => Ok(EfiIfrOpCode::StringOp),
            0x1D => Ok(EfiIfrOpCode::RefreshOp),
            0x1E => Ok(EfiIfrOpCode::DisableIfOp),
            0x1F => Ok(EfiIfrOpCode::AnimationOp),
            0x20 => Ok(EfiIfrOpCode::ToLowerOp),
            0x21 => Ok(EfiIfrOpCode::ToUpperOp),
            0x22 => Ok(EfiIfrOpCode::MapOp),
            0x23 => Ok(EfiIfrOpCode::OrderedListOp),
            0x24 => Ok(EfiIfrOpCode::VarstoreOp),
            0x25 => Ok(EfiIfrOpCode::VarstoreNameValueOp),
            0x26 => Ok(EfiIfrOpCode::VarstoreEfiOp),
            0x27 => Ok(EfiIfrOpCode::VarstoreDeviceOp),
            0x28 => Ok(EfiIfrOpCode::VersionOp),
            0x29 => Ok(EfiIfrOpCode::EndOp),
            0x2A => Ok(EfiIfrOpCode::MatchOp),
            0x2B => Ok(EfiIfrOpCode::GetOp),
            0x2C => Ok(EfiIfrOpCode::SetOp),
            0x2D => Ok(EfiIfrOpCode::ReadOp),
            0x2E => Ok(EfiIfrOpCode::WriteOp),
            0x2F => Ok(EfiIfrOpCode::EqualOp),
            0x30 => Ok(EfiIfrOpCode::NotEqualOp),
            0x31 => Ok(EfiIfrOpCode::GreaterThanOp),
            0x32 => Ok(EfiIfrOpCode::GreaterEqualOp),
            0x33 => Ok(EfiIfrOpCode::LessThanOp),
            0x34 => Ok(EfiIfrOpCode::LessEqualOp),
            0x35 => Ok(EfiIfrOpCode::BitwiseAndOp),
            0x36 => Ok(EfiIfrOpCode::BitwiseOrOp),
            0x37 => Ok(EfiIfrOpCode::BitwiseNotOp),
            0x38 => Ok(EfiIfrOpCode::ShiftLeftOp),
            0x39 => Ok(EfiIfrOpCode::ShiftRightOp),
            0x3A => Ok(EfiIfrOpCode::AddOp),
            0x3B => Ok(EfiIfrOpCode::SubtractOp),
            0x3C => Ok(EfiIfrOpCode::MultiplyOp),
            0x3D => Ok(EfiIfrOpCode::DivideOp),
            0x3E => Ok(EfiIfrOpCode::ModuloOp),
            0x3F => Ok(EfiIfrOpCode::RuleRefOp),
            0x40 => Ok(EfiIfrOpCode::QuestionRef1Op),
            0x41 => Ok(EfiIfrOpCode::QuestionRef2Op),
            0x42 => Ok(EfiIfrOpCode::Uint8Op),
            0x43 => Ok(EfiIfrOpCode::Uint16Op),
            0x44 => Ok(EfiIfrOpCode::Uint32Op),
            0x45 => Ok(EfiIfrOpCode::Uint64Op),
            0x46 => Ok(EfiIfrOpCode::TrueOp),
            0x47 => Ok(EfiIfrOpCode::FalseOp),
            0x48 => Ok(EfiIfrOpCode::ToUintOp),
            0x49 => Ok(EfiIfrOpCode::ToStringOp),
            0x4A => Ok(EfiIfrOpCode::ToBooleanOp),
            0x4B => Ok(EfiIfrOpCode::MidOp),
            0x4C => Ok(EfiIfrOpCode::FindOp),
            0x4D => Ok(EfiIfrOpCode::TokenOp),
            0x4E => Ok(EfiIfrOpCode::StringRef1Op),
            0x4F => Ok(EfiIfrOpCode::StringRef2Op),
            0x50 => Ok(EfiIfrOpCode::ConditionalOp),
            0x51 => Ok(EfiIfrOpCode::QuestionRef3Op),
            0x52 => Ok(EfiIfrOpCode::ZeroOp),
            0x53 => Ok(EfiIfrOpCode::OneOp),
            0x54 => Ok(EfiIfrOpCode::OnesOp),
            0x55 => Ok(EfiIfrOpCode::UndefinedOp),
            0x56 => Ok(EfiIfrOpCode::LengthOp),
            0x57 => Ok(EfiIfrOpCode::DupOp),
            0x58 => Ok(EfiIfrOpCode::ThisOp),
            0x59 => Ok(EfiIfrOpCode::SpanOp),
            0x5A => Ok(EfiIfrOpCode::ValueOp),
            0x5B => Ok(EfiIfrOpCode::DefaultOp),
            0x5C => Ok(EfiIfrOpCode::DefaultStoreOp),
            0x5D => Ok(EfiIfrOpCode::FormMapOp),
            0x5E => Ok(EfiIfrOpCode::CatenateOp),
            0x5F => Ok(EfiIfrOpCode::GuidOp),
            0x60 => Ok(EfiIfrOpCode::SecurityOp),
            0x61 => Ok(EfiIfrOpCode::ModalTagOp),
            0x62 => Ok(EfiIfrOpCode::RefreshIdOp),
            0x63 => Ok(EfiIfrOpCode::WarningIfOp),
            0x64 => Ok(EfiIfrOpCode::Match2Op),
            _ => Err(HiiError::UnrecognizedType),
        }
    }

    /// The codes of the operators are those from 1 to `LAST_OP_CODE`.
    pub proof fn lemma_code_range(self)
        ensures
            1 <= self.spec_code() <= LAST_OP_CODE,
    {
    }
}

/// Whether `operand` is the code of an operator of the expression class.
///
/// The class is given by this table, in the order of the codes: `EqIdValOp`
/// to `NotOp`, `ToLowerOp`, `ToUpperOp`, `MapOp`, `VersionOp`, `MatchOp` to
/// `SetOp`, `EqualOp` to `SpanOp`, `CatenateOp`, `SecurityOp` and `Match2Op`.
pub open spec fn spec_is_expression_op_code(operand: u8) -> bool {
    ||| 0x12 <= operand <= 0x17
    ||| 0x20 <= operand <= 0x22
    ||| operand == 0x28
    ||| 0x2A <= operand <= 0x2C
    ||| 0x2F <= operand <= 0x59
    ||| operand == 0x5E
    ||| operand == 0x60
    ||| operand == 0x64
}

/// Whether `operand` is the code of an operator of the expression class.
pub fn is_expression_op_code(operand: u8) -> (r: bool)
    ensures
        r == spec_is_expression_op_code(operand),
{
    (operand >= EfiIfrOpCode::EqIdValOp.code() && operand <= EfiIfrOpCode::NotOp.code()) || (
    operand >= EfiIfrOpCode::MatchOp.code() && operand <= EfiIfrOpCode::SetOp.code()) || (operand
        >= EfiIfrOpCode::EqualOp.code() && operand <= EfiIfrOpCode::SpanOp.code()) || operand
        == EfiIfrOpCode::CatenateOp.code() || operand == EfiIfrOpCode::ToLowerOp.code() || operand
        == EfiIfrOpCode::ToUpperOp.code() || operand == EfiIfrOpCode::MapOp.code() || operand
        == EfiIfrOpCode::VersionOp.code() || operand == EfiIfrOpCode::SecurityOp.code() || operand
        == EfiIfrOpCode::Match2Op.code()
}

/// Whether `operand` lies above the code of the last operator that has a name.
/// A record with such a code is walked like any other; its operator is
/// unknown.
pub fn is_know_op_code(operand: u8) -> (r: bool)
    ensures
        r == (operand > LAST_OP_CODE),
{
    operand > EfiIfrOpCode::Match2Op.code()
}

/// The number of records in `records` whose operator is of the expression
/// class.
pub open spec fn expression_count(records: Seq<Seq<u8>>) -> int
    decreases records.len(),
{
    if records.len() == 0 {
        0
    } else if spec_is_expression_op_code(records.last()[0]) {
        expression_count(records.drop_last()) + 1
    } else {
        expression_count(records.drop_last())
    }
}

/// Counts the opcode records of a form package by class: first those of the
/// expression class, then all others, which are statements; or the first
/// defect that a walk over the records meets.
#[verifier::loop_isolation(false)]
pub fn count_op_codes(package: &HiiFormPackageHdr) -> (r: Result<(usize, usize), HiiError>)
    requires
        package.parts.wf(),
    ensures
        match parse_opcodes(package.parts@.skip(4)) {
            Ok(records) => r matches Ok(count) && count.0 == expression_count(records) && count.0
                + count.1 == records.len(),
            Err(e) => r matches Err(f) && f == e,
        },
{
    let start = EfiOpHeaderIter::from_slice(package.as_data());
    let mut cursor = start;
    let mut count: (usize, usize) = (0, 0);
    let ghost mut seen: Seq<Seq<u8>> = Seq::empty();
    loop
        invariant
            cursor.wf(),
            parse_opcodes(start@) == prepend(seen, parse_opcodes(cursor@)),
            count.0 == expression_count(seen),
            count.0 + count.1 == seen.len(),
            seen.len() <= cursor.position(),
        decreases cursor@.len(),
    {
        match cursor.next() {
            Ok(Some(opcode)) => {
                proof {
                    lemma_prepend_push(seen, opcode@, parse_opcodes(cursor@));
                    assert(seen.push(opcode@).drop_last() =~= seen);
                    seen = seen.push(opcode@);
                }
                proof {
                    cursor.lemma_position_fits();
                }
                if is_expression_op_code(opcode.op_code()) {
                    count.0 = count.0 + 1;
                } else {
                    count.1 = count.1 + 1;
                }
            },
            Ok(None) => {
                proof {
                    assert(seen + Seq::<Seq<u8>>::empty() =~= seen);
                }
                return Ok(count);
            },
            Err(e) => {
                return Err(e);
            },
        }
    }
}

} // verus!
