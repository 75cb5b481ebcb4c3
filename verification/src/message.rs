//! Reading a message from the store.

use vstd::prelude::*;

use crate::error::CoordError;
use crate::store::{ObjectMeta, StoreError};

verus! {

/// What a read returns for an object that was found, given what decoding its
/// contents gave.
pub open spec fn found<T>(meta: ObjectMeta, decoded: Result<T, prost::DecodeError>) -> Result<
    Option<(ObjectMeta, T)>,
    CoordError,
> {
    match decoded {
        Ok(message) => Ok(Some((meta, message))),
        Err(error) => Err(CoordError::Decode(error)),
    }
}

/// Whether `read` is what a plain read answered with `reply` returns.
pub open spec fn fetched<T, D: FnOnce(Vec<u8>) -> Result<T, prost::DecodeError>>(
    reply: Result<Option<(ObjectMeta, Vec<u8>)>, StoreError>,
    decode: D,
    read: Result<Option<(ObjectMeta, T)>, CoordError>,
) -> bool {
    match reply {
        Err(error) => read == Err::<Option<(ObjectMeta, T)>, CoordError>(CoordError::Store(error)),
        Ok(None) => read == Ok::<Option<(ObjectMeta, T)>, CoordError>(None),
        Ok(Some((meta, body))) => exists|decoded: Result<T, prost::DecodeError>|
            decode.ensures((body,), decoded) && read == #[trigger] found(meta, decoded),
    }
}

/// Read a message with its version, from the store's answer to a plain read of
/// its key. `Ok(None)` if the object is absent. `decode` is applied to the
/// contents of a found object, and to nothing else.
pub fn get_message<T, D>(
    reply: Result<Option<(ObjectMeta, Vec<u8>)>, StoreError>,
    decode: D,
) -> (read: Result<Option<(ObjectMeta, T)>, CoordError>) where
    D: FnOnce(Vec<u8>) -> Result<T, prost::DecodeError>,

    requires
        reply matches Ok(Some((_, body))) ==> decode.requires((body,)),
    ensures
        fetched(reply, decode, read),
{
    match reply {
        Err(error) => Err(CoordError::Store(error)),
        Ok(None) => Ok(None),
        Ok(Some((meta, body))) => {
            let decoded = decode(body);
            assert(exists|d: Result<T, prost::DecodeError>|
                decode.ensures((body,), d) && found(meta, decoded) == #[trigger] found(meta, d));
            match decoded {
                Ok(message) => Ok(Some((meta, message))),
                Err(error) => Err(CoordError::Decode(error)),
            }
        },
    }
}

/// Read a message only if its version changed since one already known, from
/// the store's answer to a read conditional on that version. `Ok(None)` if the
/// object is unchanged or absent.
pub fn get_message_if_changed<T, D>(
    reply: Result<Option<(ObjectMeta, Vec<u8>)>, StoreError>,
    decode: D,
) -> (read: Result<Option<(ObjectMeta, T)>, CoordError>) where
    D: FnOnce(Vec<u8>) -> Result<T, prost::DecodeError>,

    requires
        reply matches Ok(Some((_, body))) ==> decode.requires((body,)),
    ensures
        match reply {
            Err(StoreError::NotFound { key }) => read == Ok::<
                Option<(ObjectMeta, T)>,
                CoordError,
            >(None),
            _ => fetched(reply, decode, read),
        },
{
    match reply {
        Err(StoreError::NotFound { key: _ }) => Ok(None),
        other => get_message(other, decode),
    }
}

} // verus!
