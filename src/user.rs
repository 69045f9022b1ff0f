//! Principal management over the versioned store.
use vstd::prelude::*;

use crate::auth::{authenticate, admits, AuthType, CertifiedInfo, UserInfo};
use crate::error::{ErrorKind, MetaError};
use crate::store::{KeyView, StoreError, StoreKey, VersionedStore};

verus! {

/// Names that resolve to a password-less principal without touching the
/// store: a bootstrap and administration escape hatch.
pub open spec fn is_builtin_user(name: Seq<char>) -> bool {
    name == "default"@ || name == ""@ || name == "root"@
}

/// The principal that a built-in name resolves to, on any host.
pub open spec fn builtin_user(name: Seq<char>) -> crate::auth::UserView {
    (name, "%"@, Seq::<u8>::empty(), AuthType::NoPassword, 0u64)
}

/// The store key of the principal `name` at `hostname`.
pub open spec fn user_key(name: Seq<char>, hostname: Seq<char>) -> KeyView {
    (0, name, hostname)
}

/// Whether the stored records are keyed by their own name and host.
pub open spec fn records_keyed(m: Map<KeyView, (UserInfo, u64)>) -> bool {
    forall|k: KeyView| #[trigger] m.contains_key(k) ==> k == user_key(m[k].0.name@, m[k].0.hostname@)
}

/// The record with password and method replaced where given.
pub open spec fn merged_user(
    u: crate::auth::UserView,
    new_auth_type: Option<AuthType>,
    new_password: Option<Seq<u8>>,
) -> crate::auth::UserView {
    (
        u.0,
        u.1,
        match new_password { Some(p) => p, None => u.2 },
        match new_auth_type { Some(a) => a, None => u.3 },
        u.4,
    )
}

/// The optional new credential as plain bytes.
pub open spec fn bytes_of(p: Option<Vec<u8>>) -> Option<Seq<u8>> {
    match p {
        Some(v) => Some(v@),
        None => None,
    }
}

/// `after` is `before` with the record under `k` replaced by one whose
/// fields are `u`, written at the version that `r` reports.
pub open spec fn changed_to(
    before: Map<KeyView, (UserInfo, u64)>,
    after: Map<KeyView, (UserInfo, u64)>,
    k: KeyView,
    u: crate::auth::UserView,
    r: Result<Option<u64>, MetaError>,
) -> bool {
    &&& after.contains_key(k)
    &&& after[k].0@ == u
    &&& r == Ok::<Option<u64>, MetaError>(Some(after[k].1))
    &&& after.remove(k) == before.remove(k)
}

/// The outcome of `add_user(info)` from `before` to `after`.
pub open spec fn added_user(before: UserManager, after: UserManager, info: UserInfo, r: Result<u64, MetaError>) -> bool {
    let k = user_key(info.name@, info.hostname@);
    &&& before.records().contains_key(k) ==> (r matches Err(e) && e.kind == ErrorKind::AlreadyExists)
    &&& r matches Ok(s) ==> {
        &&& !before.records().contains_key(k)
        &&& after.records() == before.records().insert(k, (info, s))
        &&& s == before.next_version()
        &&& after.next_version() == s + 1
    }
    &&& r matches Err(e) ==> {
        &&& after.records() == before.records()
        &&& after.next_version() == before.next_version()
        &&& (e.kind == ErrorKind::AlreadyExists) == before.records().contains_key(k)
        &&& (e.kind == ErrorKind::AllocationExhausted) == !before.records().contains_key(k)
        &&& e.context@ == "(while add user)."@
    }
    &&& (!before.records().contains_key(k) && before.next_version() < u64::MAX) ==> r is Ok
}

/// The outcome of replacing the record under `k` by one with fields `u`,
/// where failures carry `context`.
pub open spec fn rewrote_user(
    before: UserManager,
    after: UserManager,
    k: KeyView,
    u: crate::auth::UserView,
    context: Seq<char>,
    r: Result<Option<u64>, MetaError>,
) -> bool {
    &&& r is Ok ==> {
        &&& before.records().contains_key(k)
        &&& changed_to(before.records(), after.records(), k, u, r)
        &&& after.records()[k].1 == before.next_version()
        &&& after.next_version() == before.next_version() + 1
    }
    &&& r matches Err(e) ==> {
        &&& after.records() == before.records()
        &&& after.next_version() == before.next_version()
        &&& (e.kind == ErrorKind::UnknownUser) == !before.records().contains_key(k)
        &&& (e.kind == ErrorKind::AllocationExhausted) == before.records().contains_key(k)
        &&& e.context@ == context
    }
    &&& (before.records().contains_key(k) && before.next_version() < u64::MAX) ==> r is Ok
}

/// Manages the principals of one tenant.
pub struct UserManager {
    tenant: String,
    users: VersionedStore<UserInfo>,
}

pub fn is_builtin_name(name: &str) -> (r: bool)
    ensures
        r == is_builtin_user(name@),
{
    proof {
        reveal_strlit("default");
        reveal_strlit("");
        reveal_strlit("root");
    }
    let n = name.to_owned();
    let a = n == "default".to_owned();
    let b = n == "".to_owned();
    let c = n == "root".to_owned();
    a || b || c
}

impl UserManager {
    pub closed spec fn wf(&self) -> bool {
        self.users.wf() && records_keyed(self.users@)
    }

    /// The stored principals with their versions, by (name, host).
    pub closed spec fn records(&self) -> Map<KeyView, (UserInfo, u64)> {
        self.users@
    }

    /// The version the next successful write will receive.
    pub closed spec fn next_version(&self) -> u64 {
        self.users.next_version()
    }

    pub closed spec fn tenant_name(&self) -> Seq<char> {
        self.tenant@
    }

    pub fn new(tenant: &str) -> (r: UserManager)
        ensures
            r.wf(),
            r.records() == Map::<KeyView, (UserInfo, u64)>::empty(),
            r.tenant_name() == tenant@,
            r.next_version() == 1,
    {
        UserManager { tenant: tenant.to_owned(), users: VersionedStore::new() }
    }

    pub fn tenant(&self) -> (r: &str)
        ensures
            r@ == self.tenant_name(),
    {
        self.tenant.as_str()
    }

    /// The key at position `i` of the store's listing order.
    pub closed spec fn listed(&self, i: int) -> KeyView {
        self.users.listed(i)
    }

    /// Looks a principal up; built-in names never reach the store.
    pub fn get_user(&self, user: &str, hostname: &str) -> (r: Result<UserInfo, MetaError>)
        requires
            self.wf(),
        ensures
            is_builtin_user(user@) ==> (r matches Ok(u) && u@ == builtin_user(user@)),
            !is_builtin_user(user@) ==> {
                &&& r is Ok <==> self.records().contains_key(user_key(user@, hostname@))
                &&& r matches Ok(u) ==> u@ == self.records()[user_key(user@, hostname@)].0@
                &&& r matches Err(e) ==> e.kind == ErrorKind::UnknownUser
            },
            r matches Err(e) ==> e.context@ == "(while get user)."@,
    {
        if is_builtin_name(user) {
            let none: Vec<u8> = Vec::new();
            proof { reveal_strlit("%"); }
            return Ok(UserInfo::new(user, "%", none.as_slice(), AuthType::NoPassword));
        }
        let key = StoreKey::new(0, user, hostname);
        match self.users.get(&key) {
            Some(e) => Ok(e.data.copy()),
            None => Err(MetaError::new(ErrorKind::UnknownUser, "(while get user).")),
        }
    }

    /// Checks the supplied credential against the principal's method.
    pub fn auth_user(&self, user: &UserInfo, info: &CertifiedInfo) -> (r: Result<bool, MetaError>)
        ensures
            r matches Ok(b) && b == admits(user.auth_type, user.password@, info.user_password@),
    {
        Ok(authenticate(user, info))
    }

    /// All principals of the tenant, in store listing order.
    pub fn get_users(&self) -> (r: Result<Vec<UserInfo>, MetaError>)
        requires
            self.wf(),
        ensures
            r matches Ok(v) && v@.len() == self.records().len()
                && (forall|i: int| 0 <= i < v@.len() ==> #[trigger] user_key(v@[i].name@, v@[i].hostname@) == self.listed(i)
                    && self.records().contains_key(self.listed(i))
                    && self.records()[self.listed(i)].0@ == v@[i]@)
                && (forall|k: KeyView| #[trigger] self.records().contains_key(k) ==>
                    exists|i: int| 0 <= i < v@.len() && k == user_key(v@[i].name@, v@[i].hostname@)),
    {
        let n = self.users.len();
        let mut res: Vec<UserInfo> = Vec::new();
        let mut i: usize = 0;
        while i < n
            invariant
                self.wf(),
                n == self.records().len(),
                i <= n,
                res@.len() == i,
                forall|j: int| 0 <= j < i ==> self.users.listed(j) == user_key(#[trigger] res@[j].name@, res@[j].hostname@)
                    && self.records().contains_key(user_key(res@[j].name@, res@[j].hostname@))
                    && self.records()[user_key(res@[j].name@, res@[j].hostname@)].0@ == res@[j]@,
            decreases n - i,
        {
            let e = self.users.entry_at(i);
            let u = e.data.copy();
            assert(self.records().contains_key(e.key@));
            res.push(u);
            i = i + 1;
        }
        assert forall|k: KeyView| #[trigger] self.records().contains_key(k) implies
            exists|j: int| 0 <= j < res@.len() && k == user_key(res@[j].name@, res@[j].hostname@) by {
            self.users.lemma_listing_covers(k);
            let j = choose|j: int| 0 <= j < self.records().len() && self.users.listed(j) == k;
            assert(self.users.listed(j) == user_key(res@[j].name@, res@[j].hostname@));
        }
        assert forall|j: int| 0 <= j < res@.len() implies #[trigger] user_key(res@[j].name@, res@[j].hostname@) == self.listed(j)
            && self.records().contains_key(self.listed(j)) && self.records()[self.listed(j)].0@ == res@[j]@ by {
            assert(self.users.listed(j) == user_key(res@[j].name@, res@[j].hostname@));
        }
        Ok(res)
    }

    /// Stores a new principal under its (name, host).
    pub fn add_user(&mut self, user_info: UserInfo) -> (r: Result<u64, MetaError>)
        requires
            old(self).wf(),
        ensures
            final(self).wf(),
            final(self).tenant_name() == old(self).tenant_name(),
            added_user(*old(self), *final(self), user_info, r),
    {
        let key = StoreKey::new(0, user_info.name.as_str(), user_info.hostname.as_str());
        match self.users.put_new(key, user_info) {
            Ok(s) => Ok(s),
            Err(StoreError::Conflict) => Err(MetaError::new(ErrorKind::AlreadyExists, "(while add user).")),
            Err(StoreError::SeqExhausted) => Err(MetaError::new(ErrorKind::AllocationExhausted, "(while add user).")),
        }
    }

    /// Replaces the method and/or credential of an existing principal;
    /// fields left `None` keep their stored value.
    pub fn update_user(
        &mut self,
        username: &str,
        hostname: &str,
        new_auth_type: Option<AuthType>,
        new_password: Option<Vec<u8>>,
    ) -> (r: Result<Option<u64>, MetaError>)
        requires
            old(self).wf(),
        ensures
            final(self).wf(),
            final(self).tenant_name() == old(self).tenant_name(),
            rewrote_user(
                *old(self),
                *final(self),
                user_key(username@, hostname@),
                merged_user(old(self).records()[user_key(username@, hostname@)].0@, new_auth_type, bytes_of(new_password)),
                "(while alter user)."@,
                r,
            ),
    {
        let key = StoreKey::new(0, username, hostname);
        let (mut u, seq) = match self.users.get(&key) {
            Some(e) => (e.data.copy(), e.seq),
            None => { return Err(MetaError::new(ErrorKind::UnknownUser, "(while alter user).")); },
        };
        match new_auth_type {
            Some(a) => { u.auth_type = a; },
            None => {},
        }
        match new_password {
            Some(p) => { u.password = p; },
            None => {},
        }
        self.write_back(key, u, seq, "(while alter user).")
    }

    /// Replaces the privileges of an existing principal.
    pub fn set_user_privileges(&mut self, username: &str, hostname: &str, privileges: u64) -> (r: Result<Option<u64>, MetaError>)
        requires
            old(self).wf(),
        ensures
            final(self).wf(),
            final(self).tenant_name() == old(self).tenant_name(),
            ({
                let u = old(self).records()[user_key(username@, hostname@)].0@;
                rewrote_user(
                    *old(self),
                    *final(self),
                    user_key(username@, hostname@),
                    (u.0, u.1, u.2, u.3, privileges),
                    "(while set user privileges)."@,
                    r,
                )
            }),
    {
        let key = StoreKey::new(0, username, hostname);
        let (mut u, seq) = match self.users.get(&key) {
            Some(e) => (e.data.copy(), e.seq),
            None => { return Err(MetaError::new(ErrorKind::UnknownUser, "(while set user privileges).")); },
        };
        u.privileges = privileges;
        self.write_back(key, u, seq, "(while set user privileges).")
    }

    /// Compare-and-set of a record read at version `seq`.  The version is
    /// current, so only an exhausted version counter can make it fail.
    fn write_back(&mut self, key: StoreKey, u: UserInfo, seq: u64, context: &str) -> (r: Result<Option<u64>, MetaError>)
        requires
            old(self).wf(),
            old(self).records().contains_key(key@),
            old(self).records()[key@].1 == seq,
            key@ == user_key(u.name@, u.hostname@),
        ensures
            final(self).wf(),
            final(self).tenant_name() == old(self).tenant_name(),
            r is Ok ==> changed_to(old(self).records(), final(self).records(), key@, u@, r)
                && final(self).records()[key@].1 == old(self).next_version()
                && final(self).next_version() == old(self).next_version() + 1,
            r is Err ==> final(self).records() == old(self).records()
                && final(self).next_version() == old(self).next_version()
                && old(self).next_version() == u64::MAX,
            r matches Err(e) ==> e.kind == ErrorKind::AllocationExhausted && e.context@ == context@,
            old(self).next_version() < u64::MAX ==> r is Ok,
    {
        let ghost k = key@;
        match self.users.put_if_version(key, u, seq) {
            Ok(s) => {
                assert(self.users@[k].0 == u);
                assert(self.users@.remove(k) =~= old(self).users@.remove(k));
                Ok(Some(s))
            },
            Err(_) => Err(MetaError::new(ErrorKind::AllocationExhausted, context)),
        }
    }

    /// Removes a principal; with `if_exist`, an absent one is no error.
    pub fn drop_user(&mut self, username: &str, hostname: &str, if_exist: bool) -> (r: Result<(), MetaError>)
        requires
            old(self).wf(),
        ensures
            final(self).wf(),
            final(self).tenant_name() == old(self).tenant_name(),
            final(self).next_version() == old(self).next_version(),
            ({
                let k = user_key(username@, hostname@);
                &&& old(self).records().contains_key(k) ==> r is Ok
                    && final(self).records() == old(self).records().remove(k)
                &&& !old(self).records().contains_key(k) ==> final(self).records() == old(self).records()
                    && (r is Ok <==> if_exist)
                    && (r matches Err(e) ==> e.kind == ErrorKind::UnknownUser)
            }),
            r matches Err(e) ==> e.context@ == "(while drop user)."@,
    {
        let key = StoreKey::new(0, username, hostname);
        let seq = match self.users.get(&key) {
            Some(e) => e.seq,
            None => {
                if if_exist {
                    return Ok(());
                }
                return Err(MetaError::new(ErrorKind::UnknownUser, "(while drop user)."));
            },
        };
        let deleted = self.users.delete_if_version(&key, seq);
        // The version was read just above, so the delete cannot conflict.
        assert(deleted is Ok);
        Ok(())
    }
}

/// Two additions of principals under one (name, host), one after the other
/// as two racing callers are serialized by the store: at most one succeeds,
/// the other fails with `AlreadyExists`, and the stored record is the
/// winner's.  When the key was free and versions remain, the first wins.
pub proof fn lemma_racing_add_user(
    m0: UserManager,
    m1: UserManager,
    m2: UserManager,
    a: UserInfo,
    b: UserInfo,
    ra: Result<u64, MetaError>,
    rb: Result<u64, MetaError>,
)
    requires
        user_key(a.name@, a.hostname@) == user_key(b.name@, b.hostname@),
        added_user(m0, m1, a, ra),
        added_user(m1, m2, b, rb),
    ensures
        !(ra is Ok && rb is Ok),
        ra is Ok ==> (rb matches Err(e) && e.kind == ErrorKind::AlreadyExists)
            && m2.records()[user_key(a.name@, a.hostname@)].0 == a,
        (!m0.records().contains_key(user_key(a.name@, a.hostname@)) && m0.next_version() < u64::MAX) ==> ra is Ok,
{
}

/// Versions are never handed out twice: a principal added, dropped and
/// added again is stored at a later version.
pub proof fn lemma_versions_grow(
    m0: UserManager,
    m1: UserManager,
    m2: UserManager,
    m3: UserManager,
    a: UserInfo,
    b: UserInfo,
    ra: Result<u64, MetaError>,
    rb: Result<u64, MetaError>,
)
    requires
        added_user(m0, m1, a, ra),
        m2.next_version() >= m1.next_version(),
        added_user(m2, m3, b, rb),
        ra is Ok,
        rb is Ok,
    ensures
        ra->Ok_0 < rb->Ok_0,
{
}

} // verus!
