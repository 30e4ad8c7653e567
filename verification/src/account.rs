//! Account records and their abstract state.

use vstd::prelude::*;

verus! {

/// The abstract state of one account record: the owning subject, the
/// optional profile fields, the set of registered devices, and the
/// optionally tracked email list (absent means "not tracked", present and
/// empty means "known to have none").
#[verifier::ext_equal]
pub struct AccountState {
    pub sub: Seq<char>,
    pub displayname: Option<Seq<char>>,
    pub avatar_url: Option<Seq<char>>,
    pub devices: Set<Seq<char>>,
    pub emails: Option<Seq<Seq<char>>>,
}

/// A fresh account owned by `sub`: no profile fields, no devices, no
/// tracked emails.
pub open spec fn fresh_account(sub: Seq<char>) -> AccountState {
    AccountState {
        sub: sub,
        displayname: None,
        avatar_url: None,
        devices: Set::<Seq<char>>::empty(),
        emails: None,
    }
}

/// The record stored for one account. `sub` is bound at creation and
/// never changes afterwards; `devices` is kept free of duplicates so that
/// it faithfully represents a set of device identifiers.
pub struct MockUser {
    pub sub: String,
    pub avatar_url: Option<String>,
    pub displayname: Option<String>,
    pub devices: Vec<String>,
    pub emails: Option<Vec<String>>,
}

impl MockUser {
    /// The device list holds each identifier at most once.
    pub open spec fn wf(&self) -> bool {
        forall|i: int, j: int|
            0 <= i < j < self.devices@.len() ==> self.devices@[i]@ != self.devices@[j]@
    }
}

impl View for MockUser {
    type V = AccountState;

    open spec fn view(&self) -> AccountState {
        AccountState {
            sub: self.sub@,
            displayname: self.displayname.deep_view(),
            avatar_url: self.avatar_url.deep_view(),
            devices: self.devices.deep_view().to_set(),
            emails: self.emails.deep_view(),
        }
    }
}

/// The profile fields of an account as returned by a query.
#[derive(Debug)]
pub struct MatrixUser {
    pub displayname: Option<String>,
    pub avatar_url: Option<String>,
}

} // verus!
