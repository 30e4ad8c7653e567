//! Three-state request fields and the provisioning request itself.
//!
//! A provisioning request describes desired account state only partially:
//! each optional profile field is either left unmentioned (keep the stored
//! value), explicitly cleared, or set to a new value. Keeping the three
//! states distinct is what makes provisioning a field-level patch rather
//! than a wholesale overwrite.

use vstd::prelude::*;

verus! {

/// One field of a provisioning request: left alone, explicitly cleared,
/// or set to a value. The distinction between `Keep` and `Clear` is
/// essential: only the latter erases the stored value.
pub enum FieldPatch<T> {
    /// The request does not mention the field: the stored value is kept.
    Keep,
    /// The request explicitly clears the field.
    Clear,
    /// The request sets the field to the given value.
    Put(T),
}

impl<T: DeepView> DeepView for FieldPatch<T> {
    type V = FieldPatch<T::V>;

    open spec fn deep_view(&self) -> FieldPatch<T::V> {
        match self {
            FieldPatch::Keep => FieldPatch::Keep,
            FieldPatch::Clear => FieldPatch::Clear,
            FieldPatch::Put(v) => FieldPatch::Put(v.deep_view()),
        }
    }
}

/// The stored value of an optional field after a patch is applied to it.
pub open spec fn apply_patch<T>(current: Option<T>, patch: FieldPatch<T>) -> Option<T> {
    match patch {
        FieldPatch::Keep => current,
        FieldPatch::Clear => None,
        FieldPatch::Put(v) => Some(v),
    }
}

/// The abstract value of a [`ProvisionRequest`]: identifiers as character
/// sequences and one patch per optional profile field.
#[verifier::ext_equal]
pub struct RequestState {
    pub mxid: Seq<char>,
    pub sub: Seq<char>,
    pub displayname: FieldPatch<Seq<char>>,
    pub avatar_url: FieldPatch<Seq<char>>,
    pub emails: FieldPatch<Seq<Seq<char>>>,
}

/// An immutable, partially specified description of desired account state.
///
/// `mxid` names the target account and `sub` the local subject that must
/// own it; the remaining fields are three-state patches, `FieldPatch::Keep`
/// unless a setter established another state.
pub struct ProvisionRequest {
    pub mxid: String,
    pub sub: String,
    pub displayname: FieldPatch<String>,
    pub avatar_url: FieldPatch<String>,
    pub emails: FieldPatch<Vec<String>>,
}

impl View for ProvisionRequest {
    type V = RequestState;

    open spec fn view(&self) -> RequestState {
        RequestState {
            mxid: self.mxid@,
            sub: self.sub@,
            displayname: self.displayname.deep_view(),
            avatar_url: self.avatar_url.deep_view(),
            emails: self.emails.deep_view(),
        }
    }
}

impl ProvisionRequest {
    /// A request for `mxid` on behalf of `sub` that leaves every profile
    /// field unspecified.
    pub fn new(mxid: String, sub: String) -> (r: Self)
        ensures
            r@ == (RequestState {
                mxid: mxid@,
                sub: sub@,
                displayname: FieldPatch::Keep,
                avatar_url: FieldPatch::Keep,
                emails: FieldPatch::Keep,
            }),
    {
        ProvisionRequest {
            mxid,
            sub,
            displayname: FieldPatch::Keep,
            avatar_url: FieldPatch::Keep,
            emails: FieldPatch::Keep,
        }
    }

    /// Ask for the display name to be set to `displayname`.
    pub fn set_displayname(self, displayname: String) -> (r: Self)
        ensures
            r@ == (RequestState { displayname: FieldPatch::Put(displayname@), ..self@ }),
    {
        ProvisionRequest { displayname: FieldPatch::Put(displayname), ..self }
    }

    /// Ask for the display name to be cleared.
    pub fn unset_displayname(self) -> (r: Self)
        ensures
            r@ == (RequestState { displayname: FieldPatch::Clear, ..self@ }),
    {
        ProvisionRequest { displayname: FieldPatch::Clear, ..self }
    }

    /// Ask for the avatar URL to be set to `avatar_url`.
    pub fn set_avatar_url(self, avatar_url: String) -> (r: Self)
        ensures
            r@ == (RequestState { avatar_url: FieldPatch::Put(avatar_url@), ..self@ }),
    {
        ProvisionRequest { avatar_url: FieldPatch::Put(avatar_url), ..self }
    }

    /// Ask for the avatar URL to be cleared.
    pub fn unset_avatar_url(self) -> (r: Self)
        ensures
            r@ == (RequestState { avatar_url: FieldPatch::Clear, ..self@ }),
    {
        ProvisionRequest { avatar_url: FieldPatch::Clear, ..self }
    }

    /// Ask for the email list to be set to `emails`.
    pub fn set_emails(self, emails: Vec<String>) -> (r: Self)
        ensures
            r@ == (RequestState { emails: FieldPatch::Put(emails.deep_view()), ..self@ }),
    {
        ProvisionRequest { emails: FieldPatch::Put(emails), ..self }
    }

    /// Ask for the email list to be cleared.
    pub fn unset_emails(self) -> (r: Self)
        ensures
            r@ == (RequestState { emails: FieldPatch::Clear, ..self@ }),
    {
        ProvisionRequest { emails: FieldPatch::Clear, ..self }
    }
}

} // verus!
