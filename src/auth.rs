//! Principal records and credential verification.
use sha2::Digest;
use vstd::prelude::*;

verus! {

/// The SHA-1 digest of a byte string.
pub uninterp spec fn sha1_of(b: Seq<u8>) -> Seq<u8>;

/// The SHA-256 digest of a byte string.
pub uninterp spec fn sha256_of(b: Seq<u8>) -> Seq<u8>;

/// Relies on sha1::Sha1 (`new`, `update`, `digest().bytes()`): the 20-byte
/// SHA-1 digest of `data`, which depends on `data` alone.
#[verifier::external_body]
fn sha1_digest(data: &[u8]) -> (r: Vec<u8>)
    ensures
        r@ == sha1_of(data@),
        r@.len() == 20,
{
    let mut m = sha1::Sha1::new();
    m.update(data);
    m.digest().bytes().to_vec()
}

/// Relies on sha2::Sha256::digest: the 32-byte SHA-256 digest of `data`,
/// which depends on `data` alone.
#[verifier::external_body]
fn sha256_digest(data: &[u8]) -> (r: Vec<u8>)
    ensures
        r@ == sha256_of(data@),
        r@.len() == 32,
{
    sha2::Sha256::digest(data).to_vec()
}

/// How a principal proves its identity.
#[derive(Clone, Copy, Debug, PartialEq, Eq, Structural)]
pub enum AuthType {
    /// Admitted without any credential.
    NoPassword,
    /// The stored credential is the password itself.
    PlainText,
    /// The stored credential is SHA-1 applied twice to the password.
    DoubleSha1,
    /// The stored credential is the SHA-256 digest of the password.
    Sha256,
}

/// A stored principal: name, host pattern, credential and privileges.
#[derive(Debug)]
pub struct UserInfo {
    pub name: String,
    pub hostname: String,
    pub password: Vec<u8>,
    pub auth_type: AuthType,
    pub privileges: u64,
}

/// The fields of a principal as plain values.
pub type UserView = (Seq<char>, Seq<char>, Seq<u8>, AuthType, u64);

impl View for UserInfo {
    type V = UserView;

    open spec fn view(&self) -> UserView {
        (self.name@, self.hostname@, self.password@, self.auth_type, self.privileges)
    }
}

/// A byte-for-byte copy of `b`.
pub fn copy_bytes(b: &[u8]) -> (r: Vec<u8>)
    ensures
        r@ == b@,
{
    let mut r: Vec<u8> = Vec::new();
    let mut i: usize = 0;
    while i < b.len()
        invariant
            i <= b@.len(),
            r@ == b@.subrange(0, i as int),
        decreases b@.len() - i,
    {
        r.push(b[i]);
        i = i + 1;
        assert(r@ =~= b@.subrange(0, i as int));
    }
    assert(r@ =~= b@);
    r
}

/// Raw byte equality.
pub fn bytes_eq(a: &[u8], b: &[u8]) -> (r: bool)
    ensures
        r == (a@ == b@),
{
    if a.len() != b.len() {
        return false;
    }
    let mut i: usize = 0;
    while i < a.len()
        invariant
            a@.len() == b@.len(),
            i <= a@.len(),
            a@.subrange(0, i as int) == b@.subrange(0, i as int),
        decreases a@.len() - i,
    {
        if a[i] != b[i] {
            assert(a@[i as int] != b@[i as int]);
            return false;
        }
        assert(a@.subrange(0, i + 1) =~= a@.subrange(0, i as int).push(a@[i as int]));
        assert(b@.subrange(0, i + 1) =~= b@.subrange(0, i as int).push(b@[i as int]));
        i = i + 1;
    }
    assert(a@ =~= a@.subrange(0, a@.len() as int));
    assert(b@ =~= b@.subrange(0, b@.len() as int));
    true
}

impl UserInfo {
    pub fn new(name: &str, hostname: &str, password: &[u8], auth_type: AuthType) -> (r: UserInfo)
        ensures
            r@ == (name@, hostname@, password@, auth_type, 0u64),
    {
        UserInfo {
            name: name.to_owned(),
            hostname: hostname.to_owned(),
            password: copy_bytes(password),
            auth_type,
            privileges: 0,
        }
    }

    /// A field-for-field copy.
    pub fn copy(&self) -> (r: UserInfo)
        ensures
            r@ == self@,
    {
        UserInfo {
            name: self.name.clone(),
            hostname: self.hostname.clone(),
            password: copy_bytes(self.password.as_slice()),
            auth_type: self.auth_type,
            privileges: self.privileges,
        }
    }
}

/// What a client presented for one request; never stored.
#[derive(Debug)]
pub struct CertifiedInfo {
    pub user_name: String,
    pub user_password: Vec<u8>,
    pub user_client_address: String,
}

impl CertifiedInfo {
    pub fn create(user: &str, password: &[u8], address: &str) -> (r: CertifiedInfo)
        ensures
            r.user_name@ == user@,
            r.user_password@ == password@,
            r.user_client_address@ == address@,
    {
        CertifiedInfo {
            user_name: user.to_owned(),
            user_password: copy_bytes(password),
            user_client_address: address.to_owned(),
        }
    }
}

/// Whether `stored` matches, given the digests already computed from the
/// supplied credential.
pub open spec fn matches_digests(
    auth: AuthType,
    stored: Seq<u8>,
    supplied: Seq<u8>,
    double_sha1: Seq<u8>,
    sha256: Seq<u8>,
) -> bool {
    match auth {
        AuthType::NoPassword => true,
        AuthType::PlainText => stored == supplied,
        AuthType::DoubleSha1 => stored == double_sha1,
        AuthType::Sha256 => stored == sha256,
    }
}

/// Whether a principal with method `auth` and credential `stored` admits a
/// client that supplied `supplied`.  For `DoubleSha1` the client already
/// hashed its password once, so one more SHA-1 round is applied here.
pub open spec fn admits(auth: AuthType, stored: Seq<u8>, supplied: Seq<u8>) -> bool {
    matches_digests(auth, stored, supplied, sha1_of(sha1_of(supplied)), sha256_of(supplied))
}

/// Decides admission from the digests of the supplied credential.
pub fn credential_matches(
    auth: AuthType,
    stored: &[u8],
    supplied: &[u8],
    double_sha1: &[u8],
    sha256: &[u8],
) -> (r: bool)
    ensures
        r == matches_digests(auth, stored@, supplied@, double_sha1@, sha256@),
{
    match auth {
        AuthType::NoPassword => true,
        AuthType::PlainText => bytes_eq(stored, supplied),
        AuthType::DoubleSha1 => bytes_eq(stored, double_sha1),
        AuthType::Sha256 => bytes_eq(stored, sha256),
    }
}

/// Verifies a supplied credential against a stored principal.
pub fn authenticate(user: &UserInfo, info: &CertifiedInfo) -> (r: bool)
    ensures
        r == admits(user.auth_type, user.password@, info.user_password@),
{
    let supplied = info.user_password.as_slice();
    let none: Vec<u8> = Vec::new();
    match user.auth_type {
        AuthType::DoubleSha1 => {
            let once = sha1_digest(supplied);
            let twice = sha1_digest(once.as_slice());
            credential_matches(user.auth_type, user.password.as_slice(), supplied, twice.as_slice(), none.as_slice())
        },
        AuthType::Sha256 => {
            let d = sha256_digest(supplied);
            credential_matches(user.auth_type, user.password.as_slice(), supplied, none.as_slice(), d.as_slice())
        },
        _ => credential_matches(user.auth_type, user.password.as_slice(), supplied, none.as_slice(), none.as_slice()),
    }
}

} // verus!
