use nezumi_ai_core::error::{to_ffi_code, NezumiError};

#[test]
fn every_error_has_its_code() {
    assert_eq!(to_ffi_code(&Ok(())), 0);
    assert_eq!(to_ffi_code(&Err(NezumiError::ModelLoadFailed("x".into()))), -1);
    assert_eq!(to_ffi_code(&Err(NezumiError::UnsupportedModel("x".into()))), -2);
    assert_eq!(to_ffi_code(&Err(NezumiError::EngineUnavailable("x".into()))), -3);
    assert_eq!(to_ffi_code(&Err(NezumiError::InferenceError("x".into()))), -4);
    assert_eq!(to_ffi_code(&Err(NezumiError::ModelNotLoaded)), -5);
    assert_eq!(to_ffi_code(&Err(NezumiError::FfiError("x".into()))), -6);
    let db = sqlx::Error::RowNotFound;
    assert_eq!(to_ffi_code(&Err(NezumiError::Db(db))), -7);
}
