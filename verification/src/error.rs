//! The error of every coordination operation.

use vstd::prelude::*;
use vstd::string::StringExecFns;

use crate::store::StoreError;
use crate::text::append_decimal;

verus! {

/// `prost::DecodeError`, carried through unopened.
#[verifier::external_type_specification]
#[verifier::external_body]
pub struct ExDecodeError(prost::DecodeError);

/// Why a coordination operation failed.
#[derive(Debug, PartialEq)]
pub enum CoordError {
    /// The store refused or failed a request.
    Store(StoreError),
    /// A stored object is not a valid message.
    Decode(prost::DecodeError),
    /// The operation was given up.
    Aborted,
    /// The lease is no longer at the version that its guard knows of.
    LeaseLost,
    /// Every attempt at a conditional write collided or failed.
    RetriesExhausted { key: String, attempts: u32 },
    /// A failure of the caller's own, in words.
    Other(String),
}

/// What an error says, where `cause` is what the error it wraps says.
pub open spec fn error_text(error: CoordError, cause: Seq<char>) -> Seq<char> {
    match error {
        CoordError::Store(_) => "store error: "@ + cause,
        CoordError::Decode(_) => "protobuf decode error: "@ + cause,
        CoordError::Aborted => "operation aborted"@,
        CoordError::LeaseLost => "lease lost"@,
        CoordError::RetriesExhausted { key, attempts } => "retries exhausted on "@ + key@
            + " after "@ + crate::text::decimal(attempts as nat) + " attempts"@,
        CoordError::Other(words) => words@,
    }
}

impl CoordError {
    /// The error in words. `cause` is what the store or decode error that this
    /// one wraps says of itself; the other errors do not use it.
    pub fn message(&self, cause: &str) -> (message: String)
        ensures
            message@ == error_text(*self, cause@),
    {
        match self {
            CoordError::Store(_) => "store error: ".to_owned().concat(cause),
            CoordError::Decode(_) => "protobuf decode error: ".to_owned().concat(cause),
            CoordError::Aborted => "operation aborted".to_owned(),
            CoordError::LeaseLost => "lease lost".to_owned(),
            CoordError::RetriesExhausted { key, attempts } => {
                let mut message = "retries exhausted on ".to_owned();
                message.append(key.as_str());
                message.append(" after ");
                append_decimal(&mut message, *attempts);
                message.append(" attempts");
                message
            },
            CoordError::Other(words) => words.clone(),
        }
    }
}

} // verus!
