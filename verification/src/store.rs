//! The vocabulary of a versioned object store: what a write demands of the
//! object it replaces, and how the store answers.

use vstd::prelude::*;

verus! {

/// An opaque token that the store gives to every object it writes. Two writes
/// of one key never carry the same token.
#[derive(Debug, PartialEq, Eq)]
pub struct Version {
    token: String,
}

impl View for Version {
    type V = Seq<char>;

    closed spec fn view(&self) -> Seq<char> {
        self.token@
    }
}

impl Version {
    /// The version with the given token.
    pub fn new(token: &str) -> (version: Version)
        ensures
            version@ == token@,
    {
        Version { token: token.to_owned() }
    }

    /// The token itself.
    pub fn as_str(&self) -> (token: &str)
        ensures
            token@ == self@,
    {
        self.token.as_str()
    }
}

impl Clone for Version {
    fn clone(&self) -> (copy: Version)
        ensures
            copy == *self,
    {
        Version { token: self.token.clone() }
    }
}

/// What the store says of an object besides its contents.
#[derive(Debug, PartialEq, Eq)]
pub struct ObjectMeta {
    pub version: Version,
}

/// What a write demands of the object it replaces.
#[derive(Debug, PartialEq, Eq)]
pub enum PutMode {
    /// The object must be absent.
    Create,
    /// The object must be present at exactly this version.
    Update(Version),
}

impl View for PutMode {
    type V = Option<Seq<char>>;

    /// The version that the object must have, `None` where it must be absent.
    open spec fn view(&self) -> Option<Seq<char>> {
        match self {
            PutMode::Create => None,
            PutMode::Update(version) => Some(version@),
        }
    }
}

/// A failed store request.
#[derive(Debug, PartialEq, Eq)]
pub enum StoreError {
    /// The object is absent.
    NotFound { key: String },
    /// The object was not as the write demanded; `current` is the version
    /// found, where the store reports it.
    PreconditionFailed { key: String, current: Option<Version> },
    /// A transient failure: the request may succeed if it is made again.
    Retryable(String),
    /// Any other failure.
    Other(String),
}

/// A write for the caller to perform.
#[derive(Debug, PartialEq, Eq)]
pub struct PutRequest {
    pub key: String,
    pub body: Vec<u8>,
    pub mode: PutMode,
}

} // verus!
