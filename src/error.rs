use vstd::prelude::*;

verus! {

/// Why a store operation failed.
#[derive(Clone, Copy, Debug, PartialEq, Eq, Structural)]
pub enum StoreError {
    /// No record file exists for the key.
    NotFound,
    /// A record file holds bytes that are not one CBOR value, or the records
    /// directory holds an entry that is not a record file.
    Corrupt,
    /// The value has no CBOR encoding (an integer outside what CBOR can hold).
    Unencodable,
    /// The file system refused the operation (permissions, disk full, ...).
    Io,
}

/// How a file-system call on a record file failed, as the caller saw it.
#[derive(Clone, Copy, Debug, PartialEq, Eq, Structural)]
pub enum IoFault {
    /// The file or directory does not exist.
    Missing,
    /// Any other failure.
    Other,
}

/// The error that a failed file-system call on a record file reports.
pub open spec fn error_of_fault(f: IoFault) -> StoreError {
    match f {
        IoFault::Missing => StoreError::NotFound,
        IoFault::Other => StoreError::Io,
    }
}

/// The error that a failed file-system call on a record file reports.
pub fn store_error_from(f: IoFault) -> (r: StoreError)
    ensures
        r == error_of_fault(f),
{
    match f {
        IoFault::Missing => StoreError::NotFound,
        IoFault::Other => StoreError::Io,
    }
}

/// Why a removal of a record file fails, given how the call ended; `None`
/// where it succeeded.
pub open spec fn io_failure(outcome: Result<(), IoFault>) -> Option<StoreError> {
    match outcome {
        Ok(()) => None,
        Err(f) => Some(error_of_fault(f)),
    }
}

/// The result of a removal of a record file, in the store's terms: a missing
/// file is a missing record.
pub fn io_result(outcome: Result<(), IoFault>) -> (r: Result<(), StoreError>)
    ensures
        r is Ok <==> io_failure(outcome) is None,
        r matches Err(e) ==> io_failure(outcome) == Some(e),
{
    match outcome {
        Ok(()) => Ok(()),
        Err(f) => Err(store_error_from(f)),
    }
}

/// The result of writing a record file, in the store's terms: any failure,
/// a missing directory included, is a failure of the file system.
pub fn write_result(outcome: Result<(), IoFault>) -> (r: Result<(), StoreError>)
    ensures
        r is Ok <==> outcome is Ok,
        outcome is Err ==> r == Err::<(), StoreError>(StoreError::Io),
{
    match outcome {
        Ok(()) => Ok(()),
        Err(_) => Err(StoreError::Io),
    }
}

} // verus!
