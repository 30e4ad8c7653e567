//! Laws of the reconciliation semantics.
//!
//! These lemmas state, once and for all inputs, the guarantees that the
//! operation contracts in [`crate::mock`] promise only call by call:
//! idempotence of the device lifecycle and the field-level patch
//! discipline of provisioning.

use vstd::prelude::*;

use crate::patch::{FieldPatch, RequestState};
use crate::semantics::{
    after_create_device, after_delete_device, after_provision, Directory,
};

verus! {

/// Registering the same device twice is idempotent: the second insertion
/// leaves the directory exactly as the first left it, with the device
/// registered once.
pub proof fn lemma_create_device_idempotent(dir: Directory, mxid: Seq<char>, device: Seq<char>)
    requires
        dir.contains_key(mxid),
    ensures
        after_create_device(after_create_device(dir, mxid, device), mxid, device)
            == after_create_device(dir, mxid, device),
{
    let once = after_create_device(dir, mxid, device);
    assert(once[mxid].devices.insert(device) =~= once[mxid].devices);
    assert(after_create_device(once, mxid, device)[mxid] =~= once[mxid]);
    assert(after_create_device(once, mxid, device) =~= once);
}

/// Removing a device that is not registered is a no-op: the directory is
/// left exactly as it was.
pub proof fn lemma_delete_device_absent_noop(dir: Directory, mxid: Seq<char>, device: Seq<char>)
    requires
        dir.contains_key(mxid),
        !dir[mxid].devices.contains(device),
    ensures
        after_delete_device(dir, mxid, device) == dir,
{
    assert(dir[mxid].devices.remove(device) =~= dir[mxid].devices);
    assert(after_delete_device(dir, mxid, device)[mxid] =~= dir[mxid]);
    assert(after_delete_device(dir, mxid, device) =~= dir);
}

/// Profile fields a request leaves unspecified are never clobbered:
/// provisioning an existing account keeps each unmentioned field exactly
/// as it was stored.
pub proof fn lemma_unspecified_fields_untouched(dir: Directory, req: RequestState)
    requires
        dir.contains_key(req.mxid),
    ensures
        req.displayname is Keep ==> after_provision(dir, req)[req.mxid].displayname == dir[req.mxid].displayname,
        req.avatar_url is Keep ==> after_provision(dir, req)[req.mxid].avatar_url == dir[req.mxid].avatar_url,
        req.emails is Keep ==> after_provision(dir, req)[req.mxid].emails == dir[req.mxid].emails,
{
}

/// Fields a request does specify are overwritten: an explicit clear
/// empties the stored field, and a set value replaces it, whatever was
/// stored before.
pub proof fn lemma_specified_fields_overwrite(dir: Directory, req: RequestState)
    ensures
        req.displayname is Clear ==> after_provision(dir, req)[req.mxid].displayname is None,
        req.avatar_url is Clear ==> after_provision(dir, req)[req.mxid].avatar_url is None,
        req.emails is Clear ==> after_provision(dir, req)[req.mxid].emails is None,
        forall|v: Seq<char>|
            req.displayname == FieldPatch::Put(v) ==> after_provision(dir, req)[req.mxid].displayname == Some(v),
        forall|v: Seq<char>|
            req.avatar_url == FieldPatch::Put(v) ==> after_provision(dir, req)[req.mxid].avatar_url == Some(v),
        forall|v: Seq<Seq<char>>|
            req.emails == FieldPatch::Put(v) ==> after_provision(dir, req)[req.mxid].emails == Some(v),
{
}

/// Provisioning always leaves the account in the directory, so any later
/// provisioning call for the same identifier finds it there and reports
/// that it did not create the account.
pub proof fn lemma_provision_then_exists(dir: Directory, req: RequestState, later: RequestState)
    requires
        later.mxid == req.mxid,
    ensures
        after_provision(dir, req).contains_key(later.mxid),
{
}

} // verus!
