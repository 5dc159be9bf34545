//! The backend for platforms without a supported vault (Linux and other
//! non-macOS Unix): every operation answers `Unsupported`. There is
//! deliberately no file fallback.
use vstd::prelude::*;

use crate::error::CredError;

verus! {

/// The error every operation of this backend returns.
pub fn unsupported() -> (e: CredError)
    ensures
        e == CredError::NoVault,
{
    CredError::NoVault
}

/// Storing is not available here.
pub fn set(_service: &str, _name: &str, _secret: &[u8]) -> (r: Result<(), CredError>)
    ensures
        r == Err::<(), CredError>(CredError::NoVault),
{
    Err(unsupported())
}

/// Reading is not available here.
pub fn get(_service: &str, _name: &str) -> (r: Result<Option<Vec<u8>>, CredError>)
    ensures
        r == Err::<Option<Vec<u8>>, CredError>(CredError::NoVault),
{
    Err(unsupported())
}

/// Deleting is not available here.
pub fn delete(_service: &str, _name: &str) -> (r: Result<bool, CredError>)
    ensures
        r == Err::<bool, CredError>(CredError::NoVault),
{
    Err(unsupported())
}

/// Listing is not available here.
pub fn entries(_service: &str) -> (r: Result<Vec<String>, CredError>)
    ensures
        r == Err::<Vec<String>, CredError>(CredError::NoVault),
{
    Err(unsupported())
}

} // verus!
