//! Scalar functions that produce UUID strings.
use std::marker::PhantomData;

use vstd::prelude::*;

use crate::error::{ErrorKind, MetaError};

verus! {

/// Whether position `i` of a hyphenated UUID holds a hyphen.
pub open spec fn is_hyphen_pos(i: int) -> bool {
    i == 8 || i == 13 || i == 18 || i == 23
}

pub open spec fn is_lower_hex(c: char) -> bool {
    ('0' <= c && c <= '9') || ('a' <= c && c <= 'f')
}

/// The hyphenated lower-case form: 8-4-4-4-12 hex digits.
pub open spec fn is_uuid_text(s: Seq<char>) -> bool {
    &&& s.len() == 36
    &&& forall|i: int| 0 <= i < 36 ==> if is_hyphen_pos(i) {
        #[trigger] s[i] == '-'
    } else {
        is_lower_hex(s[i])
    }
}

/// A random (version 4, RFC 4122 variant) UUID in hyphenated form.
pub open spec fn is_v4_text(s: Seq<char>) -> bool {
    &&& is_uuid_text(s)
    &&& s[14] == '4'
    &&& (s[19] == '8' || s[19] == '9' || s[19] == 'a' || s[19] == 'b')
}

/// Relies on getrandom::getrandom: fills 16 bytes from the system's source
/// of randomness, or reports that it could not.
#[verifier::external_body]
fn random_bytes() -> (r: Option<Vec<u8>>)
    ensures
        r matches Some(b) ==> b@.len() == 16,
{
    let mut bytes = [0u8; 16];
    match getrandom::getrandom(&mut bytes) {
        Ok(()) => Some(bytes.to_vec()),
        Err(_) => None,
    }
}

/// Relies on uuid::Builder (`from_bytes`, `set_variant(RFC4122)`,
/// `set_version(Random)`, `build`) and the `Display` of `Uuid`: the version
/// nibble becomes 4, the variant bits become `10`, and the result is written
/// as lower-case hex in 8-4-4-4-12 groups.
#[verifier::external_body]
fn v4_text_from_bytes(b: &[u8]) -> (r: String)
    requires
        b@.len() == 16,
    ensures
        is_v4_text(r@),
{
    let mut bytes = [0u8; 16];
    bytes.copy_from_slice(b);
    uuid::Builder::from_bytes(bytes)
        .set_variant(uuid::Variant::RFC4122)
        .set_version(uuid::Version::Random)
        .build()
        .to_string()
}

/// Relies on uuid::Uuid::nil and its `Display`: all sixteen bytes zero.
#[verifier::external_body]
fn nil_uuid_text() -> (r: String)
    ensures
        r@ == "00000000-0000-0000-0000-000000000000"@,
{
    uuid::Uuid::nil().to_string()
}

/// The all-zero UUID in hyphenated form.
pub open spec fn nil_text() -> Seq<char> {
    "00000000-0000-0000-0000-000000000000"@
}

/// A source of UUIDs for the UUID scalar functions.
pub trait UUIDCreator {
    /// What `create` may return: `None` only where the source had nothing
    /// to give.
    spec fn creates(r: Option<Seq<char>>) -> bool;

    fn create() -> (r: Option<String>)
        ensures
            Self::creates(text_of(r)),
    ;
}

/// The text of an optional string.
pub open spec fn text_of(r: Option<String>) -> Option<Seq<char>> {
    match r {
        Some(s) => Some(s@),
        None => None,
    }
}

/// Creates random (version 4) UUIDs.
#[derive(Debug)]
pub struct UUIDv4;

impl UUIDCreator for UUIDv4 {
    open spec fn creates(r: Option<Seq<char>>) -> bool {
        r matches Some(s) ==> is_v4_text(s)
    }

    fn create() -> (r: Option<String>) {
        match random_bytes() {
            Some(b) => Some(v4_text_from_bytes(b.as_slice())),
            None => None,
        }
    }
}

/// Creates the all-zero UUID.
#[derive(Debug)]
pub struct UUIDZero;

impl UUIDCreator for UUIDZero {
    open spec fn creates(r: Option<Seq<char>>) -> bool {
        r == Some(nil_text())
    }

    fn create() -> (r: Option<String>) {
        Some(nil_uuid_text())
    }
}

/// What the function registry needs to know of a function.
#[derive(Clone, Copy, Debug, PartialEq, Eq, Structural)]
pub struct FunctionFeatures {
    pub is_deterministic: bool,
    pub monotonicity: bool,
}

/// How a function is registered.
#[derive(Debug)]
pub struct Function2Description {
    pub features: FunctionFeatures,
}

/// A scalar function of no arguments that returns one UUID string.
#[derive(Debug)]
pub struct UUIDCreatorFunction<T> {
    display_name: String,
    t: PhantomData<T>,
}

pub type UUIDv4Function = UUIDCreatorFunction<UUIDv4>;

pub type UUIDZeroFunction = UUIDCreatorFunction<UUIDZero>;

impl<T: UUIDCreator> UUIDCreatorFunction<T> {
    /// The name the function was registered under.
    pub closed spec fn display_name_view(&self) -> Seq<char> {
        self.display_name@
    }

    pub fn try_create(display_name: &str) -> (r: Result<UUIDCreatorFunction<T>, MetaError>)
        ensures
            r matches Ok(f) && f.display_name_view() == display_name@,
    {
        Ok(UUIDCreatorFunction { display_name: display_name.to_owned(), t: PhantomData })
    }

    /// Registration data: the default features, so neither deterministic
    /// nor monotonic.
    pub fn desc() -> (r: Function2Description)
        ensures
            r.features == (FunctionFeatures { is_deterministic: false, monotonicity: false }),
    {
        Function2Description { features: FunctionFeatures { is_deterministic: false, monotonicity: false } }
    }

    pub fn name(&self) -> (r: &str)
        ensures
            r@ == self.display_name_view(),
    {
        self.display_name.as_str()
    }

    /// The name of the result type.
    pub fn return_type(&self) -> (r: String)
        ensures
            r@ == "String"@,
    {
        "String".to_owned()
    }

    /// One UUID, whatever the number of input rows; an error only where the
    /// creator had nothing to give.
    pub fn eval(&self, input_rows: usize) -> (r: Result<Vec<String>, MetaError>)
        ensures
            r matches Ok(v) ==> v@.len() == 1 && T::creates(Some(v@[0]@)),
            r is Err ==> T::creates(None),
            r matches Err(e) ==> e.kind == ErrorKind::RandomnessUnavailable
                && e.context@ == "(while generate uuid)."@,
    {
        match T::create() {
            Some(u) => {
                let mut col: Vec<String> = Vec::new();
                col.push(u);
                Ok(col)
            },
            None => Err(MetaError::new(ErrorKind::RandomnessUnavailable, "(while generate uuid).")),
        }
    }
}

} // verus!
