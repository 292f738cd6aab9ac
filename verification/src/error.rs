//! The library's errors and the integer codes they take across the C boundary.
use vstd::prelude::*;

verus! {

/// The error type of the SQLite session store (`sqlx::Error`), carried through unchanged.
#[verifier::external_type_specification]
#[verifier::external_body]
pub struct ExSqlxError(sqlx::Error);

/// Everything that can go wrong in the library.
#[derive(Debug)]
pub enum NezumiError {
    ModelLoadFailed(String),
    UnsupportedModel(String),
    EngineUnavailable(String),
    InferenceError(String),
    ModelNotLoaded,
    FfiError(String),
    Db(sqlx::Error),
}

/// The code that a result takes across the C boundary: `0` for success and a
/// distinct negative number for each kind of error.
pub open spec fn ffi_code(r: Result<(), NezumiError>) -> i32 {
    match r {
        Ok(_) => 0i32,
        Err(NezumiError::ModelLoadFailed(_)) => -1i32,
        Err(NezumiError::UnsupportedModel(_)) => -2i32,
        Err(NezumiError::EngineUnavailable(_)) => -3i32,
        Err(NezumiError::InferenceError(_)) => -4i32,
        Err(NezumiError::ModelNotLoaded) => -5i32,
        Err(NezumiError::FfiError(_)) => -6i32,
        Err(NezumiError::Db(_)) => -7i32,
    }
}

/// Converts a result into the code handed to C callers, so that no panic
/// crosses the boundary.
pub fn to_ffi_code(r: &Result<(), NezumiError>) -> (code: i32)
    ensures
        code == ffi_code(*r),
{
    match r {
        Ok(_) => 0,
        Err(NezumiError::ModelLoadFailed(_)) => -1,
        Err(NezumiError::UnsupportedModel(_)) => -2,
        Err(NezumiError::EngineUnavailable(_)) => -3,
        Err(NezumiError::InferenceError(_)) => -4,
        Err(NezumiError::ModelNotLoaded) => -5,
        Err(NezumiError::FfiError(_)) => -6,
        Err(NezumiError::Db(_)) => -7,
    }
}

/// Which kind of error `e` is, as a number from 1 to 7 in declaration order.
pub open spec fn error_kind(e: NezumiError) -> int {
    match e {
        NezumiError::ModelLoadFailed(_) => 1,
        NezumiError::UnsupportedModel(_) => 2,
        NezumiError::EngineUnavailable(_) => 3,
        NezumiError::InferenceError(_) => 4,
        NezumiError::ModelNotLoaded => 5,
        NezumiError::FfiError(_) => 6,
        NezumiError::Db(_) => 7,
    }
}

/// Law: the code is zero exactly for success, and negative for every error.
pub proof fn law_ffi_code_zero_iff_ok(r: Result<(), NezumiError>)
    ensures
        (ffi_code(r) == 0) <==> r is Ok,
        r is Err ==> ffi_code(r) < 0,
{
}

/// Law: two errors share a code only when they are of the same kind, so a
/// C caller can always tell which kind of error occurred.
pub proof fn law_ffi_code_tells_kinds_apart(a: NezumiError, b: NezumiError)
    ensures
        (ffi_code(Err(a)) == ffi_code(Err(b))) <==> (error_kind(a) == error_kind(b)),
{
}

} // verus!
