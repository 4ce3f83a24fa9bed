//! ISO7816-style status codes returned in the APDU trailer.

use vstd::prelude::*;

verus! {

/// The errors that the app can produce, based on ISO7816.
///
/// Each variant corresponds to a fixed 16-bit status code; see
/// [`ApduError::code`].
#[derive(Clone, Copy, PartialEq, Eq, Structural, Debug)]
pub enum ApduError {
    ExecutionError,
    WrongLength,
    ApduCodeEmptyBuffer,
    OutputBufferTooSmall,
    DataInvalid,
    ApduCodeConditionsNotSatisfied,
    CommandNotAllowed,
    BadKeyExample,
    InvalidP1P2,
    InsNotSupported,
    ClaNotSupported,
    Unknown,
    SignVerifyError,
    Success,
    Busy,
}

/// Failure to recognize a wire value as an [`ApduError`].
#[derive(Clone, Copy, PartialEq, Eq, Structural, Debug)]
pub enum ConvertApduError {
    /// The byte form had the wrong length.
    Length { expected: usize, found: usize },
    /// The 16-bit value matches no known status code.
    Unknown(u16),
}

impl ApduError {
    /// The 16-bit wire status code of this error.
    pub open spec fn spec_code(self) -> u16 {
        match self {
            ApduError::ExecutionError => 0x6400u16,
            ApduError::WrongLength => 0x6700u16,
            ApduError::ApduCodeEmptyBuffer => 0x6982u16,
            ApduError::OutputBufferTooSmall => 0x6983u16,
            ApduError::DataInvalid => 0x6984u16,
            ApduError::ApduCodeConditionsNotSatisfied => 0x6985u16,
            ApduError::CommandNotAllowed => 0x6986u16,
            ApduError::BadKeyExample => 0x6A80u16,
            ApduError::InvalidP1P2 => 0x6B00u16,
            ApduError::InsNotSupported => 0x6D00u16,
            ApduError::ClaNotSupported => 0x6E00u16,
            ApduError::Unknown => 0x6F00u16,
            ApduError::SignVerifyError => 0x6F01u16,
            ApduError::Success => 0x9000u16,
            ApduError::Busy => 0x9001u16,
        }
    }

    #[verifier::when_used_as_spec(spec_code)]
    pub fn code(self) -> (r: u16)
        ensures
            r == self.spec_code(),
    {
        match self {
            ApduError::ExecutionError => 0x6400,
            ApduError::WrongLength => 0x6700,
            ApduError::ApduCodeEmptyBuffer => 0x6982,
            ApduError::OutputBufferTooSmall => 0x6983,
            ApduError::DataInvalid => 0x6984,
            ApduError::ApduCodeConditionsNotSatisfied => 0x6985,
            ApduError::CommandNotAllowed => 0x6986,
            ApduError::BadKeyExample => 0x6A80,
            ApduError::InvalidP1P2 => 0x6B00,
            ApduError::InsNotSupported => 0x6D00,
            ApduError::ClaNotSupported => 0x6E00,
            ApduError::Unknown => 0x6F00,
            ApduError::SignVerifyError => 0x6F01,
            ApduError::Success => 0x9000,
            ApduError::Busy => 0x9001,
        }
    }

    /// Parse a 16-bit status code; inverse of [`ApduError::code`] on the
    /// known codes, `Err(Unknown)` on every other value.
    pub fn try_from_code(value: u16) -> (r: Result<ApduError, ConvertApduError>)
        ensures
            r matches Ok(e) ==> e.spec_code() == value,
            r matches Err(c) ==> c == ConvertApduError::Unknown(value)
                && (forall|e: ApduError| e.spec_code() != value),
    {
        let r = match value {
            0x6400 => Ok(ApduError::ExecutionError),
            0x6700 => Ok(ApduError::WrongLength),
            0x6982 => Ok(ApduError::ApduCodeEmptyBuffer),
            0x6983 => Ok(ApduError::OutputBufferTooSmall),
            0x6984 => Ok(ApduError::DataInvalid),
            0x6985 => Ok(ApduError::ApduCodeConditionsNotSatisfied),
            0x6986 => Ok(ApduError::CommandNotAllowed),
            0x6A80 => Ok(ApduError::BadKeyExample),
            0x6B00 => Ok(ApduError::InvalidP1P2),
            0x6D00 => Ok(ApduError::InsNotSupported),
            0x6E00 => Ok(ApduError::ClaNotSupported),
            0x6F00 => Ok(ApduError::Unknown),
            0x6F01 => Ok(ApduError::SignVerifyError),
            0x9000 => Ok(ApduError::Success),
            0x9001 => Ok(ApduError::Busy),
            err => Err(ConvertApduError::Unknown(err)),
        };
        proof {
            if r is Err {
                assert forall|e: ApduError| e.spec_code() != value by {
                    lemma_apdu_code_injective(e);
                }
            }
        }
        r
    }

    /// Parse a big-endian two-byte status trailer.
    ///
    /// Fails with `Length` when more than two bytes are given, and with
    /// `Unknown` when the 16-bit value matches no known code.
    pub fn try_from_bytes(value: &[u8]) -> (r: Result<ApduError, ConvertApduError>)
        requires
            value@.len() >= 2,
        ensures
            value@.len() > 2 ==> r == Err::<ApduError, _>(
                ConvertApduError::Length { expected: 2usize, found: value@.len() as usize },
            ),
            value@.len() == 2 ==> ({
                let code = (value@[0] as u16 * 256 + value@[1] as u16) as u16;
                &&& (r matches Ok(e) ==> e.spec_code() == code)
                &&& (r matches Err(c) ==> c == ConvertApduError::Unknown(code))
            }),
    {
        if value.len() > 2 {
            return Err(ConvertApduError::Length { expected: 2, found: value.len() });
        }
        let code: u16 = (value[0] as u16) * 256 + (value[1] as u16);
        Self::try_from_code(code)
    }
}

/// Every status code the parser could miss really belongs to no variant:
/// used to close the `Err` case of [`ApduError::try_from_code`].
proof fn lemma_apdu_code_injective(e: ApduError)
    ensures
        e.spec_code() == 0x6400 || e.spec_code() == 0x6700 || e.spec_code() == 0x6982
            || e.spec_code() == 0x6983 || e.spec_code() == 0x6984 || e.spec_code() == 0x6985
            || e.spec_code() == 0x6986 || e.spec_code() == 0x6A80 || e.spec_code() == 0x6B00
            || e.spec_code() == 0x6D00 || e.spec_code() == 0x6E00 || e.spec_code() == 0x6F00
            || e.spec_code() == 0x6F01 || e.spec_code() == 0x9000 || e.spec_code() == 0x9001,
{
}

} // verus!
