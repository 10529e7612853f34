//! What can go wrong when an event is reported or an event source is
//! provisioned.

use vstd::prelude::*;

verus! {

/// The Win32 error with which the operating system refuses an operation for
/// want of privileges.
pub const ERROR_ACCESS_DENIED: u32 = 5;

/// The result code with which the operating system refuses an operation for
/// want of privileges: `ERROR_ACCESS_DENIED` as an `HRESULT`, 0x80070005.
pub const ACCESS_DENIED: i32 = -2147024891;

/// The Win32 error with which the operating system refuses a name that is
/// not well formed.
pub const ERROR_INVALID_NAME: u32 = 123;

/// The result code with which the operating system refuses a name that is
/// not well formed: `ERROR_INVALID_NAME` as an `HRESULT`, 0x8007007B.
pub const INVALID_NAME: i32 = -2147024773;

/// The bits of the `HRESULT` that stands for a Win32 error: the error itself
/// where it is 0 or has its top bit set, else its low 16 bits under the
/// failure bit and the Win32 facility.
pub open spec fn hresult_bits(error: u32) -> u32 {
    if error == 0 || error >= 0x8000_0000 {
        error
    } else {
        (error & 0x0000_FFFF) | 0x8007_0000
    }
}

/// The `HRESULT` that stands for a Win32 error.
pub open spec fn hresult_from_win32(error: u32) -> i32 {
    if hresult_bits(error) >= 0x8000_0000 {
        (hresult_bits(error) - 0x1_0000_0000) as i32
    } else {
        hresult_bits(error) as i32
    }
}

/// The `HRESULT` that stands for a Win32 error.
pub fn to_hresult(error: u32) -> (code: i32)
    ensures
        code == hresult_from_win32(error),
{
    let bits: u32 = if error == 0 || error >= 0x8000_0000 {
        error
    } else {
        (error & 0x0000_FFFF) | 0x8007_0000
    };
    if bits >= 0x8000_0000 {
        let low: u32 = bits - 0x8000_0000;
        low as i32 - 0x7FFF_FFFF - 1
    } else {
        bits as i32
    }
}

/// `ACCESS_DENIED` is the `HRESULT` of `ERROR_ACCESS_DENIED`.
pub proof fn lemma_access_denied_code()
    ensures
        hresult_from_win32(ERROR_ACCESS_DENIED) == ACCESS_DENIED,
{
    assert((5u32 & 0x0000_FFFFu32) | 0x8007_0000u32 == 0x8007_0005u32) by (bit_vector);
}

/// `INVALID_NAME` is the `HRESULT` of `ERROR_INVALID_NAME`.
pub proof fn lemma_invalid_name_code()
    ensures
        hresult_from_win32(ERROR_INVALID_NAME) == INVALID_NAME,
{
    assert((123u32 & 0x0000_FFFFu32) | 0x8007_0000u32 == 0x8007_007Bu32) by (bit_vector);
}

/// A failure of opening an event source or of reporting one event.
#[derive(Debug, Clone, Copy, PartialEq, Eq, Structural)]
pub enum EventLogError {
    /// The source name holds a terminator before its end, at this position
    /// of its wide encoding.
    InvalidName(usize),
    /// The rendered text cannot be handed to the operating system. It holds
    /// a terminator before its end, at the given position of its wide
    /// encoding, or it is no text at all (`None`).
    InvalidMessage(Option<usize>),
    /// The operating system refused the call, with this result code.
    OsError(i32),
}

/// A failure of registering or deregistering an event source.
#[derive(Debug, Clone, Copy, PartialEq, Eq, Structural)]
pub enum RegistryError {
    /// The operating system could not name the running executable.
    SystemError(i32),
    /// The path of the running executable is no text.
    InvalidExePath,
    /// The operating system denied the operation. More privileges help.
    PermissionDenied(i32),
    /// A key could not be opened, created or removed.
    KeyError(i32),
    /// A value could not be written.
    ValueError(i32),
    /// A name holds a terminator before its end, at this position of its
    /// wide encoding.
    StrConvertError(usize),
}

/// The error that a failed key operation with result `code` stands for.
pub open spec fn key_error(code: i32) -> RegistryError {
    if code == ACCESS_DENIED {
        RegistryError::PermissionDenied(code)
    } else {
        RegistryError::KeyError(code)
    }
}

/// The error that a failed write of a value with result `code` stands for.
pub open spec fn value_error(code: i32) -> RegistryError {
    if code == ACCESS_DENIED {
        RegistryError::PermissionDenied(code)
    } else {
        RegistryError::ValueError(code)
    }
}

/// Classifies the result code of a failed key operation.
pub fn map_key_error(code: i32) -> (error: RegistryError)
    ensures
        error == key_error(code),
{
    proof {
        lemma_access_denied_code();
    }
    if code == to_hresult(ERROR_ACCESS_DENIED) {
        RegistryError::PermissionDenied(code)
    } else {
        RegistryError::KeyError(code)
    }
}

/// Classifies the result code of a failed write of a value.
pub fn map_value_error(code: i32) -> (error: RegistryError)
    ensures
        error == value_error(code),
{
    proof {
        lemma_access_denied_code();
    }
    if code == to_hresult(ERROR_ACCESS_DENIED) {
        RegistryError::PermissionDenied(code)
    } else {
        RegistryError::ValueError(code)
    }
}

} // verus!
