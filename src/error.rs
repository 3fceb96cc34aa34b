//! Status codes of the configuration store and the error they become.
use vstd::prelude::*;

verus! {

/// The store call completed.
pub const ERROR_SUCCESS: u32 = 0;

/// The key named does not exist.
pub const ERROR_FILE_NOT_FOUND: u32 = 2;

/// The key may not be changed this way (for a delete: it still has subkeys).
pub const ERROR_ACCESS_DENIED: u32 = 5;

/// The store operation that failed.
#[derive(Clone, Copy, Debug, PartialEq, Eq, Structural)]
pub enum StoreOp {
    /// Opening or creating a source's key.
    CreateKey,
    /// Removing a source's key.
    DeleteKey,
}

impl StoreOp {
    /// The name of the store call behind this operation.
    pub fn name(&self) -> (r: &'static str)
        ensures
            r@ == (match self {
                StoreOp::CreateKey => "RegCreateKeyExW"@,
                StoreOp::DeleteKey => "RegDeleteKeyW"@,
            }),
    {
        match self {
            StoreOp::CreateKey => "RegCreateKeyExW",
            StoreOp::DeleteKey => "RegDeleteKeyW",
        }
    }
}

/// A configuration-store operation that ended with a status other than success.
#[derive(Clone, Copy, Debug, PartialEq, Eq, Structural)]
pub struct StoreError {
    pub operation: StoreOp,
    pub code: u32,
}

/// The status code tagged with the Win32 facility, as an HRESULT's bits.
pub open spec fn facility_code(code: u32) -> u32 {
    0x8007_0000u32 | (code & 0xFFFFu32)
}

/// What a store call that returned `status` amounts to.
pub open spec fn status_result(op: StoreOp, status: u32) -> Result<(), StoreError> {
    if status == ERROR_SUCCESS {
        Ok(())
    } else {
        Err(StoreError { operation: op, code: status })
    }
}

impl StoreError {
    /// The facility-tagged code under which this error propagates.
    pub fn hresult(&self) -> (r: u32)
        ensures
            r == facility_code(self.code),
            r >> 16u32 == 0x8007u32,
            r & 0xFFFFu32 == self.code & 0xFFFFu32,
    {
        let r = 0x8007_0000u32 | (self.code & 0xFFFFu32);
        let c = self.code;
        assert(r >> 16u32 == 0x8007u32 && r & 0xFFFFu32 == c & 0xFFFFu32) by (bit_vector)
            requires
                r == 0x8007_0000u32 | (c & 0xFFFFu32),
        ;
        r
    }
}

/// Turns the status of a store call into success or a `StoreError` naming `op`.
pub fn check_status(op: StoreOp, status: u32) -> (r: Result<(), StoreError>)
    ensures
        r == status_result(op, status),
{
    if status == ERROR_SUCCESS {
        Ok(())
    } else {
        Err(StoreError { operation: op, code: status })
    }
}

/// Whether an attempt to open a key for reading, which returned `status`,
/// shows the key to be present. Any failure reads as absence.
pub fn open_status_exists(status: u32) -> (r: bool)
    ensures
        r == (status == ERROR_SUCCESS),
{
    status == ERROR_SUCCESS
}

} // verus!
