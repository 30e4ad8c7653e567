//! An in-memory account directory for a Matrix-style homeserver.
//!
//! The directory mirrors locally authenticated identities into per-account
//! records. Provisioning is an upsert with field-level patch semantics:
//! fields a request leaves unspecified are never clobbered, while fields it
//! specifies (including an explicit clear) overwrite the stored value.
//! Device registration and removal are idempotent, and account deletion
//! clears devices and emails, optionally erasing the profile fields too.

use vstd::prelude::*;

pub mod account;
pub mod laws;
pub mod mock;
pub mod patch;
pub mod semantics;

verus! {

/// Errors returned by directory operations.
#[derive(Clone, Copy, Debug, PartialEq, Eq, Structural)]
pub enum HomeserverError {
    /// The referenced account does not exist in the directory.
    NotFound,
    /// An existing account is owned by a different subject than the one
    /// named by a provisioning request.
    Conflict,
}

} // verus!
