//! Stable integer codes for the outcome of mapping an object, and their
//! names.
use crate::s3::S3Failure;
use vstd::prelude::*;

verus! {

pub const MMAP_S3_OK: i32 = 0;
pub const MMAP_S3_ERRNO: i32 = 1;
pub const MMAP_S3_IOERROR: i32 = 2;
pub const MMAP_S3_CONTENT_LENGTH_NOT_RETURNED: i32 = 3;
pub const MMAP_S3_NOT_FOUND: i32 = 4;
pub const MMAP_S3_PERMISSION_ERROR: i32 = 5;
pub const MMAP_S3_NO_BODY_RETURNED: i32 = 6;
pub const MMAP_S3_INVALID_S3URL: i32 = 7;
pub const MMAP_S3_UNKNOWN: i32 = 8;

/// The code reported for a failure of the object store.
pub open spec fn failure_code_spec(f: S3Failure) -> i32 {
    match f {
        S3Failure::InvalidS3Url => MMAP_S3_INVALID_S3URL,
        S3Failure::ContentLengthNotReturned => MMAP_S3_CONTENT_LENGTH_NOT_RETURNED,
        S3Failure::NoBodyReturned => MMAP_S3_NO_BODY_RETURNED,
        S3Failure::S3NotFound => MMAP_S3_NOT_FOUND,
        S3Failure::S3PermissionError => MMAP_S3_PERMISSION_ERROR,
        S3Failure::IOError => MMAP_S3_IOERROR,
        _ => MMAP_S3_UNKNOWN,
    }
}

/// The code reported for a failure of the object store.
pub fn failure_code(f: &S3Failure) -> (r: i32)
    ensures
        r == failure_code_spec(*f),
{
    match f {
        S3Failure::InvalidS3Url => MMAP_S3_INVALID_S3URL,
        S3Failure::ContentLengthNotReturned => MMAP_S3_CONTENT_LENGTH_NOT_RETURNED,
        S3Failure::NoBodyReturned => MMAP_S3_NO_BODY_RETURNED,
        S3Failure::S3NotFound => MMAP_S3_NOT_FOUND,
        S3Failure::S3PermissionError => MMAP_S3_PERMISSION_ERROR,
        S3Failure::IOError => MMAP_S3_IOERROR,
        _ => MMAP_S3_UNKNOWN,
    }
}

/// The name of a code; unknown codes are named as `MMAP_S3_UNKNOWN`.
pub open spec fn code_name(code: i32) -> Seq<char> {
    if code == MMAP_S3_OK {
        "MMAP_S3_OK"@
    } else if code == MMAP_S3_ERRNO {
        "MMAP_S3_ERRNO"@
    } else if code == MMAP_S3_IOERROR {
        "MMAP_S3_IOERROR"@
    } else if code == MMAP_S3_CONTENT_LENGTH_NOT_RETURNED {
        "MMAP_S3_CONTENT_LENGTH_NOT_RETURNED"@
    } else if code == MMAP_S3_NOT_FOUND {
        "MMAP_S3_NOT_FOUND"@
    } else if code == MMAP_S3_PERMISSION_ERROR {
        "MMAP_S3_PERMISSION_ERROR"@
    } else if code == MMAP_S3_NO_BODY_RETURNED {
        "MMAP_S3_NO_BODY_RETURNED"@
    } else if code == MMAP_S3_INVALID_S3URL {
        "MMAP_S3_INVALID_S3URL"@
    } else {
        "MMAP_S3_UNKNOWN"@
    }
}

/// The name of a code; unknown codes are named as `MMAP_S3_UNKNOWN`.
pub fn errstr(code: i32) -> (r: &'static str)
    ensures
        r@ == code_name(code),
{
    if code == MMAP_S3_OK {
        "MMAP_S3_OK"
    } else if code == MMAP_S3_ERRNO {
        "MMAP_S3_ERRNO"
    } else if code == MMAP_S3_IOERROR {
        "MMAP_S3_IOERROR"
    } else if code == MMAP_S3_CONTENT_LENGTH_NOT_RETURNED {
        "MMAP_S3_CONTENT_LENGTH_NOT_RETURNED"
    } else if code == MMAP_S3_NOT_FOUND {
        "MMAP_S3_NOT_FOUND"
    } else if code == MMAP_S3_PERMISSION_ERROR {
        "MMAP_S3_PERMISSION_ERROR"
    } else if code == MMAP_S3_NO_BODY_RETURNED {
        "MMAP_S3_NO_BODY_RETURNED"
    } else if code == MMAP_S3_INVALID_S3URL {
        "MMAP_S3_INVALID_S3URL"
    } else {
        "MMAP_S3_UNKNOWN"
    }
}

} // verus!
