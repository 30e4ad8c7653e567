//! The in-memory homeserver connection and its reconciliation engine.
//!
//! The directory is stored as a vector of `(identifier, record)` pairs
//! whose identifiers are pairwise distinct; its abstract value is the map
//! from identifier to the record's abstract state. Every operation states
//! its effect on that map in terms of the pure transition functions of
//! [`crate::semantics`].

use vstd::prelude::*;
use vstd::pervasive::VecAdditionalExecFns;
use vstd::string::*;

use crate::account::{fresh_account, AccountState, MatrixUser, MockUser};
use crate::patch::{apply_patch, FieldPatch, ProvisionRequest};
use crate::semantics::{
    after_create_device, after_delete_device, after_delete_user, after_provision,
    provision_allowed, provisioned, Directory,
};
use crate::HomeserverError;

verus! {

/// An in-memory implementation of the homeserver account directory.
///
/// The abstract value of a connection (its [`View`]) is the directory map;
/// `wf()` is the representation invariant every operation requires and
/// preserves.
pub struct MockHomeserverConnection {
    homeserver: String,
    users: Vec<(String, MockUser)>,
}

/// The identifiers of the stored records are pairwise distinct, so each
/// identifier names at most one record.
spec fn keys_unique(s: Seq<(String, MockUser)>) -> bool {
    forall|i: int, j: int| 0 <= i < j < s.len() ==> s[i].0@ != s[j].0@
}

/// The map represented by an association list: later entries win, which is
/// immaterial once the keys are known to be distinct.
spec fn assoc_view(s: Seq<(String, MockUser)>) -> Directory
    decreases s.len(),
{
    if s.len() == 0 {
        Map::<Seq<char>, AccountState>::empty()
    } else {
        assoc_view(s.drop_last()).insert(s.last().0@, s.last().1@)
    }
}

proof fn lemma_assoc_contains(s: Seq<(String, MockUser)>, k: Seq<char>)
    ensures
        assoc_view(s).contains_key(k) <==> exists|i: int| 0 <= i < s.len() && s[i].0@ == k,
    decreases s.len(),
{
    if s.len() > 0 {
        lemma_assoc_contains(s.drop_last(), k);
        if s.last().0@ == k {
            assert(s[s.len() - 1].0@ == k);
        } else if assoc_view(s).contains_key(k) {
            let i = choose|i: int| 0 <= i < s.drop_last().len() && s.drop_last()[i].0@ == k;
            assert(s[i].0@ == k);
        } else if exists|i: int| 0 <= i < s.len() && s[i].0@ == k {
            let i = choose|i: int| 0 <= i < s.len() && s[i].0@ == k;
            assert(s.drop_last()[i].0@ == k);
        }
    }
}

proof fn lemma_assoc_value(s: Seq<(String, MockUser)>, i: int)
    requires
        keys_unique(s),
        0 <= i < s.len(),
    ensures
        assoc_view(s).contains_key(s[i].0@),
        assoc_view(s)[s[i].0@] == s[i].1@,
    decreases s.len(),
{
    if i == s.len() - 1 {
    } else {
        assert(keys_unique(s.drop_last())) by {
            assert(forall|x: int, y: int|
                0 <= x < y < s.drop_last().len() ==> s.drop_last()[x].0@ != s.drop_last()[y].0@)
                by {
                assert(forall|x: int, y: int| 0 <= x < y < s.len() ==> s[x].0@ != s[y].0@);
            }
        }
        lemma_assoc_value(s.drop_last(), i);
        assert(s.drop_last()[i] == s[i]);
        assert(s[i].0@ != s.last().0@);
    }
}

proof fn lemma_assoc_update(s: Seq<(String, MockUser)>, i: int, key: String, u: MockUser)
    requires
        keys_unique(s),
        0 <= i < s.len(),
        key@ == s[i].0@,
    ensures
        assoc_view(s.update(i, (key, u))) == assoc_view(s).insert(s[i].0@, u@),
        keys_unique(s.update(i, (key, u))),
    decreases s.len(),
{
    let t = s.update(i, (key, u));
    assert(keys_unique(t)) by {
        assert(forall|x: int, y: int| 0 <= x < y < t.len() ==> t[x].0@ != t[y].0@) by {
            assert(forall|x: int| 0 <= x < s.len() ==> t[x].0@ == s[x].0@);
        }
    }
    if i == s.len() - 1 {
        assert(t.drop_last() =~= s.drop_last());
        assert(t.last() == (key, u));
        assert(assoc_view(t) == assoc_view(s.drop_last()).insert(key@, u@));
        assert(assoc_view(s.drop_last()).insert(key@, u@)
            =~= assoc_view(s.drop_last()).insert(s[i].0@, s[i].1@).insert(s[i].0@, u@));
    } else {
        assert(keys_unique(s.drop_last())) by {
            assert(forall|x: int, y: int|
                0 <= x < y < s.drop_last().len() ==> s.drop_last()[x].0@ != s.drop_last()[y].0@)
                by {
                assert(forall|x: int, y: int| 0 <= x < y < s.len() ==> s[x].0@ != s[y].0@);
            }
        }
        lemma_assoc_update(s.drop_last(), i, key, u);
        assert(t.drop_last() =~= s.drop_last().update(i, (key, u)));
        assert(t.last() == s.last());
        assert(assoc_view(t)
            == assoc_view(s.drop_last()).insert(s[i].0@, u@).insert(s.last().0@, s.last().1@));
        assert(s[i].0@ != s.last().0@);
        assert(assoc_view(s.drop_last()).insert(s[i].0@, u@).insert(s.last().0@, s.last().1@)
            =~= assoc_view(s.drop_last()).insert(s.last().0@, s.last().1@).insert(s[i].0@, u@));
    }
}

proof fn lemma_assoc_push(s: Seq<(String, MockUser)>, key: String, u: MockUser)
    ensures
        assoc_view(s.push((key, u))) == assoc_view(s).insert(key@, u@),
{
    let t = s.push((key, u));
    assert(t.drop_last() =~= s);
    assert(t.last() == (key, u));
}

/// An owned copy of an optional string, equal to the one given.
fn clone_opt_string(x: &Option<String>) -> (r: Option<String>)
    ensures
        r == *x,
{
    match x {
        Some(s) => Some(s.clone()),
        None => None,
    }
}

/// An owned copy of a string vector with the same abstract contents.
fn clone_string_vec(v: &Vec<String>) -> (r: Vec<String>)
    ensures
        r@ == v@,
{
    let r = v.clone();
    proof {
        assert forall|i: int| 0 <= i < r@.len() implies r@[i] == v@[i] by {
            assert(cloned::<String>(v[i], r[i]));
        }
        assert(r@ =~= v@);
    }
    r
}

/// An owned copy of an optional string vector with the same abstract
/// contents.
fn clone_opt_string_vec(x: &Option<Vec<String>>) -> (r: Option<Vec<String>>)
    ensures
        r.deep_view() == x.deep_view(),
{
    match x {
        Some(v) => Some(clone_string_vec(v)),
        None => None,
    }
}

impl View for MockHomeserverConnection {
    type V = Directory;

    closed spec fn view(&self) -> Directory {
        assoc_view(self.users@)
    }
}

impl MockHomeserverConnection {
    /// The domain this connection serves.
    pub closed spec fn homeserver_name(&self) -> Seq<char> {
        self.homeserver@
    }

    /// Representation invariant: identifiers are pairwise distinct and
    /// every stored record is well formed.
    pub closed spec fn wf(&self) -> bool {
        &&& keys_unique(self.users@)
        &&& forall|i: int| 0 <= i < self.users@.len() ==> (#[trigger] self.users@[i]).1.wf()
    }

    /// A connection for `homeserver` with an empty directory.
    pub fn new(homeserver: String) -> (r: Self)
        ensures
            r.wf(),
            r@ == Map::<Seq<char>, AccountState>::empty(),
            r.homeserver_name() == homeserver@,
    {
        MockHomeserverConnection { homeserver, users: Vec::new() }
    }

    /// The stable identifier of this connection's homeserver domain.
    pub fn homeserver(&self) -> (r: &str)
        ensures
            r@ == self.homeserver_name(),
    {
        self.homeserver.as_str()
    }

    /// The full account identifier for a local part on this homeserver.
    pub fn mxid(&self, localpart: &str) -> (r: String)
        ensures
            r@ == seq!['@'] + localpart@ + seq![':'] + self.homeserver_name(),
    {
        proof {
            reveal_strlit("@");
            reveal_strlit(":");
        }
        let mut out = String::from_str("@");
        out.append(localpart);
        out.append(":");
        out.append(self.homeserver.as_str());
        proof {
            assert(out@ =~= seq!['@'] + localpart@ + seq![':'] + self.homeserver_name());
        }
        out
    }

    /// The index of the record for `key`, if the account exists.
    fn find_user(&self, key: &String) -> (r: Option<usize>)
        requires
            self.wf(),
        ensures
            match r {
                Some(i) => {
                    &&& i < self.users@.len()
                    &&& self.users@[i as int].0@ == key@
                    &&& self@.contains_key(key@)
                    &&& self@[key@] == self.users@[i as int].1@
                },
                None => !self@.contains_key(key@),
            },
    {
        let n = self.users.len();
        let mut i: usize = 0;
        while i < n
            invariant
                self.wf(),
                n == self.users@.len(),
                i <= n,
                forall|j: int| 0 <= j < i ==> self.users@[j].0@ != key@,
            decreases n - i,
        {
            if self.users[i].0 == *key {
                proof {
                    lemma_assoc_value(self.users@, i as int);
                }
                return Some(i);
            }
            i += 1;
        }
        proof {
            lemma_assoc_contains(self.users@, key@);
        }
        None
    }

    /// Reads the profile fields of `mxid`'s account.
    ///
    /// Returns the stored display name and avatar URL, or `NotFound` if
    /// and only if the account does not exist.
    pub fn query_user(&self, mxid: &str) -> (r: Result<MatrixUser, HomeserverError>)
        requires
            self.wf(),
        ensures
            match r {
                Ok(user) => {
                    &&& self@.contains_key(mxid@)
                    &&& user.displayname.deep_view() == self@[mxid@].displayname
                    &&& user.avatar_url.deep_view() == self@[mxid@].avatar_url
                },
                Err(e) => {
                    &&& !self@.contains_key(mxid@)
                    &&& e == HomeserverError::NotFound
                },
            },
    {
        let key = mxid.to_owned();
        match self.find_user(&key) {
            Some(i) => {
                let user = &self.users[i].1;
                Ok(MatrixUser {
                    displayname: clone_opt_string(&user.displayname),
                    avatar_url: clone_opt_string(&user.avatar_url),
                })
            },
            None => Err(HomeserverError::NotFound),
        }
    }

    /// Reconciles a provisioning request against the directory.
    ///
    /// If the account does not exist it is created, owned by the request's
    /// subject, and the result is `Ok(true)`; if it exists under the same
    /// subject it is patched field by field and the result is `Ok(false)`.
    /// If the account exists under a different subject the call fails with
    /// `Conflict` and mutates nothing.
    pub fn provision_user(&mut self, request: &ProvisionRequest) -> (r: Result<
        bool,
        HomeserverError,
    >)
        requires
            old(self).wf(),
        ensures
            final(self).wf(),
            final(self).homeserver_name() == old(self).homeserver_name(),
            match r {
                Ok(created) => {
                    &&& provision_allowed(old(self)@, request@)
                    &&& created == !old(self)@.contains_key(request@.mxid)
                    &&& final(self)@ == after_provision(old(self)@, request@)
                },
                Err(e) => {
                    &&& !provision_allowed(old(self)@, request@)
                    &&& e == HomeserverError::Conflict
                    &&& final(self)@ == old(self)@
                },
            },
    {
        let key = request.mxid.clone();
        match self.find_user(&key) {
            Some(i) => {
                if !(self.users[i].1.sub == request.sub) {
                    return Err(HomeserverError::Conflict);
                }
                let updated = patched_user(&self.users[i].1, request);
                proof {
                    lemma_assoc_update(self.users@, i as int, key, updated);
                }
                let ghost prev = self.users@;
                self.users.set(i, (key, updated));
                proof {
                    assert forall|j: int| 0 <= j < self.users@.len() implies (
                    #[trigger] self.users@[j]).1.wf() by {
                        if j != i {
                            assert(self.users@[j] == prev[j]);
                        }
                    }
                    assert(self@ =~= after_provision(old(self)@, request@));
                }
                Ok(false)
            },
            None => {
                let fresh = MockUser {
                    sub: request.sub.clone(),
                    avatar_url: None,
                    displayname: None,
                    devices: Vec::new(),
                    emails: None,
                };
                proof {
                    assert(fresh@ =~= fresh_account(request@.sub));
                }
                let updated = patched_user(&fresh, request);
                proof {
                    lemma_assoc_push(self.users@, key, updated);
                    lemma_assoc_contains(self.users@, key@);
                }
                let ghost prev = self.users@;
                self.users.push((key, updated));
                proof {
                    assert forall|x: int, y: int|
                        0 <= x < y < self.users@.len() implies self.users@[x].0@
                        != self.users@[y].0@ by {
                        if y < prev.len() {
                            assert(self.users@[x] == prev[x] && self.users@[y] == prev[y]);
                        } else {
                            assert(self.users@[x] == prev[x]);
                            assert(prev[x].0@ != key@);
                        }
                    }
                    assert forall|j: int| 0 <= j < self.users@.len() implies (
                    #[trigger] self.users@[j]).1.wf() by {
                        if j < prev.len() {
                            assert(self.users@[j] == prev[j]);
                        }
                    }
                    assert(self@ =~= after_provision(old(self)@, request@));
                }
                Ok(true)
            },
        }
    }

    /// Registers a device for `mxid`'s account.
    ///
    /// Fails with `NotFound` if and only if the account does not exist;
    /// registering a device that is already present succeeds and leaves
    /// the directory unchanged (idempotent insertion into a set).
    pub fn create_device(&mut self, mxid: &str, device_id: &str) -> (r: Result<
        (),
        HomeserverError,
    >)
        requires
            old(self).wf(),
        ensures
            final(self).wf(),
            final(self).homeserver_name() == old(self).homeserver_name(),
            match r {
                Ok(_) => {
                    &&& old(self)@.contains_key(mxid@)
                    &&& final(self)@ == after_create_device(old(self)@, mxid@, device_id@)
                },
                Err(e) => {
                    &&& !old(self)@.contains_key(mxid@)
                    &&& e == HomeserverError::NotFound
                    &&& final(self)@ == old(self)@
                },
            },
    {
        let key = mxid.to_owned();
        let i = match self.find_user(&key) {
            Some(i) => i,
            None => {
                return Err(HomeserverError::NotFound);
            },
        };
        let dev = device_id.to_owned();
        match find_device(&self.users[i].1.devices, &dev) {
            Some(j) => {
                proof {
                    let ds = self.users@[i as int].1.devices.deep_view();
                    assert(ds[j as int] == self.users@[i as int].1.devices@[j as int]@);
                    assert(ds.contains(dev@));
                    assert(self@[mxid@].devices.insert(dev@) =~= self@[mxid@].devices);
                    assert(after_create_device(self@, mxid@, device_id@)[mxid@] =~= self@[mxid@]);
                    assert(after_create_device(self@, mxid@, device_id@) =~= self@);
                }
                Ok(())
            },
            None => {
                let user = &self.users[i].1;
                let mut devices = clone_string_vec(&user.devices);
                devices.push(dev);
                let updated = with_devices(user, devices);
                proof {
                    let prev_ds = self.users@[i as int].1.devices.deep_view();
                    assert forall|x: int, y: int|
                        0 <= x < y < updated.devices@.len() implies updated.devices@[x]@
                        != updated.devices@[y]@ by {
                        if y < prev_ds.len() {
                            assert(updated.devices@[x] == self.users@[i as int].1.devices@[x]);
                            assert(updated.devices@[y] == self.users@[i as int].1.devices@[y]);
                        } else {
                            assert(updated.devices@[x] == self.users@[i as int].1.devices@[x]);
                            assert(prev_ds[x] == self.users@[i as int].1.devices@[x]@);
                            assert(prev_ds.contains(prev_ds[x]));
                            assert(updated.devices@[y]@ == dev@);
                        }
                    }
                    assert(updated.devices.deep_view() =~= prev_ds.push(dev@)) by {
                        assert forall|k: int|
                            0 <= k < updated.devices.deep_view().len() implies #[trigger] updated.devices.deep_view()[k]
                            == prev_ds.push(dev@)[k] by {
                            if k < prev_ds.len() {
                                assert(updated.devices@[k] == self.users@[i as int].1.devices@[k]);
                            } else {
                                assert(updated.devices@[k]@ == dev@);
                            }
                        }
                    }
                    lemma_to_set_push(prev_ds, dev@);
                    assert(updated@ =~= after_create_device(self@, mxid@, device_id@)[mxid@]);
                    lemma_assoc_update(self.users@, i as int, key, updated);
                }
                let ghost prev = self.users@;
                self.users.set(i, (key, updated));
                proof {
                    assert forall|j: int| 0 <= j < self.users@.len() implies (
                    #[trigger] self.users@[j]).1.wf() by {
                        if j != i {
                            assert(self.users@[j] == prev[j]);
                        }
                    }
                    assert(self@ =~= after_create_device(old(self)@, mxid@, device_id@));
                }
                Ok(())
            },
        }
    }

    /// Removes a device from `mxid`'s account.
    ///
    /// Fails with `NotFound` if and only if the account does not exist;
    /// removing a device that is not registered succeeds and leaves the
    /// directory unchanged (idempotent removal from a set).
    pub fn delete_device(&mut self, mxid: &str, device_id: &str) -> (r: Result<
        (),
        HomeserverError,
    >)
        requires
            old(self).wf(),
        ensures
            final(self).wf(),
            final(self).homeserver_name() == old(self).homeserver_name(),
            match r {
                Ok(_) => {
                    &&& old(self)@.contains_key(mxid@)
                    &&& final(self)@ == after_delete_device(old(self)@, mxid@, device_id@)
                },
                Err(e) => {
                    &&& !old(self)@.contains_key(mxid@)
                    &&& e == HomeserverError::NotFound
                    &&& final(self)@ == old(self)@
                },
            },
    {
        let key = mxid.to_owned();
        let i = match self.find_user(&key) {
            Some(i) => i,
            None => {
                return Err(HomeserverError::NotFound);
            },
        };
        let dev = device_id.to_owned();
        match find_device(&self.users[i].1.devices, &dev) {
            None => {
                proof {
                    assert(!self@[mxid@].devices.contains(dev@));
                    assert(self@[mxid@].devices.remove(dev@) =~= self@[mxid@].devices);
                    assert(after_delete_device(self@, mxid@, device_id@)[mxid@] =~= self@[mxid@]);
                    assert(after_delete_device(self@, mxid@, device_id@) =~= self@);
                }
                Ok(())
            },
            Some(j) => {
                let user = &self.users[i].1;
                let mut devices = clone_string_vec(&user.devices);
                devices.remove(j);
                let updated = with_devices(user, devices);
                proof {
                    let prev_ds = self.users@[i as int].1.devices.deep_view();
                    let prev_dev = self.users@[i as int].1.devices@;
                    prev_dev.remove_ensures(j as int);
                    assert forall|x: int, y: int|
                        0 <= x < y < updated.devices@.len() implies updated.devices@[x]@
                        != updated.devices@[y]@ by {
                        let x0: int = if x < j { x } else { x + 1 };
                        let y0: int = if y < j { y } else { y + 1 };
                        assert(updated.devices@[x] == prev_dev[x0]);
                        assert(updated.devices@[y] == prev_dev[y0]);
                    }
                    assert forall|x: int, y: int|
                        0 <= x < y < prev_ds.len() implies prev_ds[x] != prev_ds[y] by {
                        assert(prev_ds[x] == prev_dev[x]@);
                        assert(prev_ds[y] == prev_dev[y]@);
                    }
                    assert(updated.devices.deep_view() =~= prev_ds.remove(j as int)) by {
                        prev_ds.remove_ensures(j as int);
                        assert forall|k: int|
                            0 <= k < updated.devices.deep_view().len() implies #[trigger] updated.devices.deep_view()[k]
                            == prev_ds.remove(j as int)[k] by {
                            let k0: int = if k < j { k } else { k + 1 };
                            assert(updated.devices@[k] == prev_dev[k0]);
                            assert(prev_ds[k0] == prev_dev[k0]@);
                        }
                    }
                    lemma_to_set_remove(prev_ds, j as int);
                    assert(prev_ds[j as int] == dev@);
                    assert(updated@ =~= after_delete_device(self@, mxid@, device_id@)[mxid@]);
                    lemma_assoc_update(self.users@, i as int, key, updated);
                }
                let ghost prev = self.users@;
                self.users.set(i, (key, updated));
                proof {
                    assert forall|j: int| 0 <= j < self.users@.len() implies (
                    #[trigger] self.users@[j]).1.wf() by {
                        if j != i {
                            assert(self.users@[j] == prev[j]);
                        }
                    }
                    assert(self@ =~= after_delete_device(old(self)@, mxid@, device_id@));
                }
                Ok(())
            },
        }
    }

    /// Deletes or erases `mxid`'s account.
    ///
    /// Devices and tracked emails are always cleared. With `erase` set the
    /// display name and avatar URL are cleared as well; without it they are
    /// left untouched, so the account can be reactivated by provisioning it
    /// again. Fails with `NotFound` if and only if the account does not
    /// exist; deleting an already deleted account is an idempotent no-op.
    pub fn delete_user(&mut self, mxid: &str, erase: bool) -> (r: Result<(), HomeserverError>)
        requires
            old(self).wf(),
        ensures
            final(self).wf(),
            final(self).homeserver_name() == old(self).homeserver_name(),
            match r {
                Ok(_) => {
                    &&& old(self)@.contains_key(mxid@)
                    &&& final(self)@ == after_delete_user(old(self)@, mxid@, erase)
                },
                Err(e) => {
                    &&& !old(self)@.contains_key(mxid@)
                    &&& e == HomeserverError::NotFound
                    &&& final(self)@ == old(self)@
                },
            },
    {
        let key = mxid.to_owned();
        let i = match self.find_user(&key) {
            Some(i) => i,
            None => {
                return Err(HomeserverError::NotFound);
            },
        };
        let user = &self.users[i].1;
        let updated = MockUser {
            sub: user.sub.clone(),
            displayname: if erase {
                None
            } else {
                clone_opt_string(&user.displayname)
            },
            avatar_url: if erase {
                None
            } else {
                clone_opt_string(&user.avatar_url)
            },
            devices: Vec::new(),
            emails: None,
        };
        proof {
            assert(updated@ =~= after_delete_user(self@, mxid@, erase)[mxid@]);
            lemma_assoc_update(self.users@, i as int, key, updated);
        }
        let ghost prev = self.users@;
        self.users.set(i, (key, updated));
        proof {
            assert forall|j: int| 0 <= j < self.users@.len() implies (
            #[trigger] self.users@[j]).1.wf() by {
                if j != i {
                    assert(self.users@[j] == prev[j]);
                }
            }
            assert(self@ =~= after_delete_user(old(self)@, mxid@, erase));
        }
        Ok(())
    }
}

proof fn lemma_to_set_push(s: Seq<Seq<char>>, x: Seq<char>)
    ensures
        s.push(x).to_set() == s.to_set().insert(x),
{
    assert forall|y: Seq<char>| #[trigger] s.push(x).to_set().contains(y) implies s.to_set().insert(
        x,
    ).contains(y) by {
        let i = choose|i: int| 0 <= i < s.push(x).len() && s.push(x)[i] == y;
        if i < s.len() {
            assert(s[i] == y);
        }
    }
    assert forall|y: Seq<char>| #[trigger] s.to_set().insert(x).contains(y) implies s.push(
        x,
    ).to_set().contains(y) by {
        if s.contains(y) {
            let i = choose|i: int| 0 <= i < s.len() && s[i] == y;
            assert(s.push(x)[i] == y);
        } else {
            assert(s.push(x)[s.len() as int] == y);
        }
    }
    assert(s.push(x).to_set() =~= s.to_set().insert(x));
}

proof fn lemma_to_set_remove(s: Seq<Seq<char>>, j: int)
    requires
        0 <= j < s.len(),
        forall|x: int, y: int| 0 <= x < y < s.len() ==> s[x] != s[y],
    ensures
        s.remove(j).to_set() == s.to_set().remove(s[j]),
{
    s.remove_ensures(j);
    assert forall|y: Seq<char>| #[trigger] s.remove(j).to_set().contains(y) implies s.to_set().remove(
        s[j],
    ).contains(y) by {
        let i = choose|i: int| 0 <= i < s.remove(j).len() && s.remove(j)[i] == y;
        if i < j {
            assert(s[i] == y);
            assert(i != j);
        } else {
            assert(s[i + 1] == y);
            assert(i + 1 != j);
        }
    }
    assert forall|y: Seq<char>| #[trigger] s.to_set().remove(s[j]).contains(y) implies s.remove(
        j,
    ).to_set().contains(y) by {
        let i = choose|i: int| 0 <= i < s.len() && s[i] == y;
        if i < j {
            assert(s.remove(j)[i] == y);
        } else {
            assert(i != j);
            assert(s.remove(j)[i - 1] == y);
        }
    }
    assert(s.remove(j).to_set() =~= s.to_set().remove(s[j]));
}

/// The index of `x` in a device list, if it is registered.
fn find_device(v: &Vec<String>, x: &String) -> (r: Option<usize>)
    ensures
        match r {
            Some(i) => i < v@.len() && v@[i as int]@ == x@,
            None => !v.deep_view().contains(x@),
        },
{
    let n = v.len();
    let mut i: usize = 0;
    while i < n
        invariant
            n == v@.len(),
            i <= n,
            forall|j: int| 0 <= j < i ==> v@[j]@ != x@,
        decreases n - i,
    {
        if v[i] == *x {
            return Some(i);
        }
        i += 1;
    }
    proof {
        assert forall|j: int| 0 <= j < v.deep_view().len() implies #[trigger] v.deep_view()[j]
            != x@ by {
            assert(v.deep_view()[j] == v@[j]@);
        }
    }
    None
}

/// An owned copy of `user` with `devices` as its device list.
fn with_devices(user: &MockUser, devices: Vec<String>) -> (r: MockUser)
    ensures
        r.sub@ == user.sub@,
        r.displayname.deep_view() == user.displayname.deep_view(),
        r.avatar_url.deep_view() == user.avatar_url.deep_view(),
        r.devices@ == devices@,
        r.emails.deep_view() == user.emails.deep_view(),
{
    MockUser {
        sub: user.sub.clone(),
        displayname: clone_opt_string(&user.displayname),
        avatar_url: clone_opt_string(&user.avatar_url),
        devices,
        emails: clone_opt_string_vec(&user.emails),
    }
}

/// The record for one account after a request has been applied to it:
/// the executable counterpart of [`provisioned`].
fn patched_user(user: &MockUser, request: &ProvisionRequest) -> (r: MockUser)
    requires
        user.wf(),
    ensures
        r.wf(),
        r@ == provisioned(user@, request@),
{
    let r = MockUser {
        sub: user.sub.clone(),
        displayname: apply_str_patch(&user.displayname, &request.displayname),
        avatar_url: apply_str_patch(&user.avatar_url, &request.avatar_url),
        devices: clone_string_vec(&user.devices),
        emails: apply_emails_patch(&user.emails, &request.emails),
    };
    proof {
        assert(r@ =~= provisioned(user@, request@));
    }
    r
}

/// Applies one three-state patch to an optional string field.
fn apply_str_patch(current: &Option<String>, patch: &FieldPatch<String>) -> (r: Option<String>)
    ensures
        r.deep_view() == apply_patch(current.deep_view(), patch.deep_view()),
{
    match patch {
        FieldPatch::Keep => clone_opt_string(current),
        FieldPatch::Clear => None,
        FieldPatch::Put(s) => Some(s.clone()),
    }
}

/// Applies one three-state patch to the optional email list.
fn apply_emails_patch(current: &Option<Vec<String>>, patch: &FieldPatch<Vec<String>>) -> (r: Option<
    Vec<String>,
>)
    ensures
        r.deep_view() == apply_patch(current.deep_view(), patch.deep_view()),
{
    match patch {
        FieldPatch::Keep => clone_opt_string_vec(current),
        FieldPatch::Clear => None,
        FieldPatch::Put(v) => Some(clone_string_vec(v)),
    }
}

} // verus!
