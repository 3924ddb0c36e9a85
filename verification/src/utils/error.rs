//! The error type of the crate.

use vstd::prelude::*;

verus! {

/// Why an operation failed.
#[derive(Debug, Clone, Copy, PartialEq, Eq, Structural)]
pub enum Error {
    /// A Windows call failed with this `HRESULT`.
    Windows(i32),
    /// The display driver does not report any brightness levels.
    NoBrightnessLevels,
    /// A condition that the Windows API should guarantee did not hold.
    AssertionFailed,
}

/// `HRESULT_FROM_WIN32`: the `HRESULT` of a Win32 error code. Codes whose
/// signed value is not positive are taken as they are; the others keep
/// their low 16 bits under facility 7 (`FACILITY_WIN32`) with the failure
/// bit set.
pub open spec fn spec_hresult_from_win32(code: u32) -> i32 {
    if code as i32 <= 0 {
        code as i32
    } else {
        ((code & 0xffff) | 0x0007_0000 | 0x8000_0000) as i32
    }
}

/// The `HRESULT` of a Win32 error code.
pub fn hresult_from_win32(code: u32) -> (r: i32)
    ensures
        r == spec_hresult_from_win32(code),
{
    if code as i32 <= 0 {
        code as i32
    } else {
        ((code & 0xffff) | 0x0007_0000 | 0x8000_0000) as i32
    }
}

/// A Win32 error code below 0x10000 (every one Windows defines) becomes
/// `0x8007xxxx`: failure, facility `FACILITY_WIN32`, and the code; success
/// (0) stays 0, and a code that already is a failure `HRESULT` (its top bit
/// set) stays as it is.
pub proof fn lemma_hresult_from_win32(code: u32)
    ensures
        0 < code < 0x10000 ==> spec_hresult_from_win32(code) as u32 == 0x8007_0000 + code,
        code == 0 ==> spec_hresult_from_win32(code) == 0,
        code >= 0x8000_0000 ==> spec_hresult_from_win32(code) as u32 == code,
{
    if 0 < code < 0x10000 {
        assert(code as i32 > 0) by (bit_vector)
            requires
                0 < code < 0x10000,
        ;
        assert((((code & 0xffff) | 0x0007_0000 | 0x8000_0000) as i32) as u32 == 0x8007_0000 + code)
            by (bit_vector)
            requires
                0 < code < 0x10000,
        ;
    }
    if code >= 0x8000_0000 {
        assert(code as i32 <= 0 && (code as i32) as u32 == code) by (bit_vector)
            requires
                code >= 0x8000_0000,
        ;
    }
}

} // verus!
