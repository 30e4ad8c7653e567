//! The abstract semantics of the directory operations.
//!
//! Each mutating operation of the connection is described here as a pure
//! function from an abstract directory (a map from account identifier to
//! account state) to the directory after the operation. The executable
//! methods promise in their contracts that their effect on the view is
//! exactly these functions; the laws in [`crate::laws`] are proved about
//! them alone.

use vstd::prelude::*;

use crate::account::{fresh_account, AccountState};
use crate::patch::{apply_patch, RequestState};

verus! {

/// The abstract contents of the directory: at most one account state per
/// account identifier.
pub type Directory = Map<Seq<char>, AccountState>;

/// Whether a provisioning request may be applied to the directory: either
/// the account does not exist yet, or it is owned by the request's subject.
pub open spec fn provision_allowed(dir: Directory, req: RequestState) -> bool {
    dir.contains_key(req.mxid) ==> dir[req.mxid].sub == req.sub
}

/// The record a request is reconciled against: the stored record if the
/// account exists, a fresh record owned by the request's subject otherwise.
pub open spec fn provision_base(dir: Directory, req: RequestState) -> AccountState {
    if dir.contains_key(req.mxid) {
        dir[req.mxid]
    } else {
        fresh_account(req.sub)
    }
}

/// One account record after a request has been reconciled against it:
/// each profile field the request specifies (including an explicit clear)
/// is overwritten, each field it leaves unspecified is untouched, and the
/// subject and device set are never altered by provisioning.
pub open spec fn provisioned(account: AccountState, req: RequestState) -> AccountState {
    AccountState {
        sub: account.sub,
        displayname: apply_patch(account.displayname, req.displayname),
        avatar_url: apply_patch(account.avatar_url, req.avatar_url),
        devices: account.devices,
        emails: apply_patch(account.emails, req.emails),
    }
}

/// The directory after a successful provisioning call.
pub open spec fn after_provision(dir: Directory, req: RequestState) -> Directory {
    dir.insert(req.mxid, provisioned(provision_base(dir, req), req))
}

/// The directory after a device is registered for an existing account:
/// an idempotent insertion into the account's device set.
pub open spec fn after_create_device(dir: Directory, mxid: Seq<char>, device: Seq<char>) -> Directory {
    let account = dir[mxid];
    dir.insert(
        mxid,
        AccountState {
            sub: account.sub,
            displayname: account.displayname,
            avatar_url: account.avatar_url,
            devices: account.devices.insert(device),
            emails: account.emails,
        },
    )
}

/// The directory after a device is removed from an existing account:
/// an idempotent removal from the account's device set.
pub open spec fn after_delete_device(dir: Directory, mxid: Seq<char>, device: Seq<char>) -> Directory {
    let account = dir[mxid];
    dir.insert(
        mxid,
        AccountState {
            sub: account.sub,
            displayname: account.displayname,
            avatar_url: account.avatar_url,
            devices: account.devices.remove(device),
            emails: account.emails,
        },
    )
}

/// The directory after an existing account is deleted. Devices and emails
/// are always cleared; the profile fields are additionally cleared only
/// when the caller asks for erasure.
pub open spec fn after_delete_user(dir: Directory, mxid: Seq<char>, erase: bool) -> Directory {
    let account = dir[mxid];
    dir.insert(
        mxid,
        AccountState {
            sub: account.sub,
            displayname: if erase { None } else { account.displayname },
            avatar_url: if erase { None } else { account.avatar_url },
            devices: Set::<Seq<char>>::empty(),
            emails: None,
        },
    )
}

} // verus!
