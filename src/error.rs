use vstd::prelude::*;

verus! {

/// The kinds of failure that catalog and principal operations report.
#[derive(Clone, Copy, Debug, PartialEq, Eq, Structural)]
pub enum ErrorKind {
    NotFound,
    AlreadyExists,
    Conflict,
    AllocationExhausted,
    ReadOnlyViolation,
    UnknownUser,
    AuthenticationFailure,
    NetworkError,
    /// The system offered no random bytes.
    RandomnessUnavailable,
}

/// A typed error together with a short description of the operation that
/// was in progress when it happened.
#[derive(Debug)]
pub struct MetaError {
    pub kind: ErrorKind,
    pub context: String,
}

impl MetaError {
    pub fn new(kind: ErrorKind, context: &str) -> (r: MetaError)
        ensures
            r.kind == kind,
            r.context@ == context@,
    {
        MetaError { kind, context: context.to_owned() }
    }

    pub fn kind(&self) -> (r: ErrorKind)
        ensures
            r == self.kind,
    {
        self.kind
    }
}

} // verus!
