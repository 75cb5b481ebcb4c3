//! What updates of one object promise together: no update is lost, and every
//! update comes to an end.

use vstd::prelude::*;

use crate::cas::{CasPlan, CasVerdict, CasView, CasWrite};
use crate::error::CoordError;
use crate::model::{Slot, Write};
use crate::store::{ObjectMeta, PutRequest, StoreError};

verus! {

/// What a read gave, as the object shows it.
pub open spec fn shown<T>(read: Option<(ObjectMeta, T)>) -> Option<(Seq<char>, T)> {
    match read {
        None => None,
        Some((meta, message)) => Some((meta.version@, message)),
    }
}

/// A message that may be absent, as an update's function is given it.
pub open spec fn lent<T>(message: &Option<T>) -> Option<&T> {
    match message {
        None => None,
        Some(message) => Some(message),
    }
}

/// An update writes over exactly what it read: if the write it plans is made,
/// then the message written is what the caller's function answered to the very
/// message that it replaces, however long ago the read was.
pub proof fn law_written_over_what_was_read<T, F, E>(
    slot: Slot<T>,
    update: CasView,
    read: Option<(ObjectMeta, T)>,
    modify: F,
    encode: E,
    write: CasWrite<T>,
    request: PutRequest,
) where F: FnOnce(Option<&T>) -> Result<Option<T>, CoordError>, E: FnOnce(&T) -> Vec<u8>
    requires
        slot.valid(),
        slot.has_shown(shown(read)),
        crate::cas::decided(update, Ok(read), modify, encode, CasPlan::Write(write, request)),
        slot.admits(request.mode@),
    ensures
        modify.ensures((lent(&slot.value()),), Ok(Some(write.new_message()))),
        encode.ensures((&write.new_message(),), request.body),
        request.key@ == update.key,
{
    let value = slot.value();
    assert(crate::cas::seen_version(read) == slot.version());
    assert(crate::cas::seen_message(&read) == lent(&value));
}

/// A read gives back what was written: if decoding undoes encoding, reading an
/// object whose contents are an encoded message returns that message.
pub proof fn law_read_gives_back_write<T, D, E>(
    message: T,
    encode: E,
    decode: D,
    meta: ObjectMeta,
    body: Vec<u8>,
    read: Result<Option<(ObjectMeta, T)>, CoordError>,
) where D: FnOnce(Vec<u8>) -> Result<T, prost::DecodeError>, E: FnOnce(&T) -> Vec<u8>
    requires
        encode.ensures((&message,), body),
        forall|encoded: Vec<u8>, decoded: Result<T, prost::DecodeError>|
            #![trigger encode.ensures((&message,), encoded), decode.ensures((encoded,), decoded)]
            encode.ensures((&message,), encoded) && decode.ensures((encoded,), decoded) ==> decoded
                == Ok::<T, prost::DecodeError>(message),
        crate::message::fetched(Ok(Some((meta, body))), decode, read),
    ensures
        read == Ok::<Option<(ObjectMeta, T)>, CoordError>(Some((meta, message))),
{
}

/// An update is read back: once the store has answered its write with `meta`, and
/// as long as no one else writes, a read gives the version and the message that
/// the update returned, if decoding undoes encoding.
pub proof fn law_update_is_read_back<T, D, E>(
    slot: Slot<Vec<u8>>,
    update: CasView,
    seen: Option<Seq<char>>,
    new: T,
    write: CasWrite<T>,
    request: PutRequest,
    encode: E,
    decode: D,
    fresh: Seq<char>,
    meta: ObjectMeta,
    shown_meta: ObjectMeta,
    shown_body: Vec<u8>,
    read: Result<Option<(ObjectMeta, T)>, CoordError>,
) where D: FnOnce(Vec<u8>) -> Result<T, prost::DecodeError>, E: FnOnce(&T) -> Vec<u8>
    requires
        crate::cas::planned(update, seen, Ok(Some(new)), encode, CasPlan::Write(write, request)),
        slot.can_answer(request.mode@, fresh, Ok(meta)),
        slot.put(request.mode@, request.body, fresh).object == Some(
            (shown_meta.version@, shown_body),
        ),
        forall|encoded: Vec<u8>, decoded: Result<T, prost::DecodeError>|
            #![trigger encode.ensures((&new,), encoded), decode.ensures((encoded,), decoded)]
            encode.ensures((&new,), encoded) && decode.ensures((encoded,), decoded) ==> decoded
                == Ok::<T, prost::DecodeError>(new),
        crate::message::fetched(Ok(Some((shown_meta, shown_body))), decode, read),
    ensures
        crate::cas::verdict(write.update(), Ok(meta)) is Written,
        read matches Ok(Some((found, message))) && found.version@ == meta.version@ && message
            == write.new_message(),
{
    law_read_gives_back_write(new, encode, decode, shown_meta, shown_body, read);
}

/// One write by an update: what the update read, what its function makes of a
/// message, and the version the write gets if it is made.
#[verifier::reject_recursive_types(V)]
pub struct CasPut<V> {
    pub seen: Option<(Seq<char>, V)>,
    pub modify: spec_fn(Option<V>) -> V,
    pub fresh: Seq<char>,
}

impl<V> CasPut<V> {
    /// The message that the update's function was given.
    pub open spec fn seen_value(self) -> Option<V> {
        match self.seen {
            None => None,
            Some((_, value)) => Some(value),
        }
    }

    /// The write itself: the function's message, over the version read.
    pub open spec fn write(self) -> Write<V> {
        Write {
            mode: crate::model::demand(self.seen),
            value: (self.modify)(self.seen_value()),
            fresh: self.fresh,
        }
    }
}

/// The object after a series of writes by any number of updates.
pub open spec fn after_puts<V>(slot: Slot<V>, puts: Seq<CasPut<V>>) -> Slot<V>
    decreases puts.len(),
{
    if puts.len() == 0 {
        slot
    } else {
        let write = puts.last().write();
        after_puts(slot, puts.drop_last()).put(write.mode, write.value, write.fresh)
    }
}

/// Whether every write of a series goes by something the object has shown, at
/// some earlier time, and gets a version not given out before.
pub open spec fn well_read<V>(slot: Slot<V>, puts: Seq<CasPut<V>>) -> bool {
    forall|i: int|
        0 <= i < puts.len() ==> {
            let before = #[trigger] after_puts(slot, puts.take(i));
            before.has_shown(puts[i].seen) && before.is_fresh(puts[i].fresh)
        }
}

/// The functions of those updates of a series whose write was made, in order.
pub open spec fn made<V>(slot: Slot<V>, puts: Seq<CasPut<V>>) -> Seq<spec_fn(Option<V>) -> V>
    decreases puts.len(),
{
    if puts.len() == 0 {
        Seq::empty()
    } else {
        let earlier = made(slot, puts.drop_last());
        let last = puts.last();
        if after_puts(slot, puts.drop_last()).admits(last.write().mode) {
            earlier.push(last.modify)
        } else {
            earlier
        }
    }
}

/// The message that functions applied one after the other give.
pub open spec fn applied<V>(value: Option<V>, functions: Seq<spec_fn(Option<V>) -> V>) -> Option<V>
    decreases functions.len(),
{
    if functions.len() == 0 {
        value
    } else {
        Some((functions.last())(applied(value, functions.drop_last())))
    }
}

/// No update is lost: however updates of one object interleave, its message is
/// what the functions of those that were written give when they are applied one
/// after the other, each to the result of the one before.
pub proof fn law_no_lost_update<V>(slot: Slot<V>, puts: Seq<CasPut<V>>)
    requires
        slot.valid(),
        well_read(slot, puts),
    ensures
        after_puts(slot, puts).valid(),
        after_puts(slot, puts).value() == applied(slot.value(), made(slot, puts)),
    decreases puts.len(),
{
    if puts.len() > 0 {
        let earlier = puts.drop_last();
        let last = puts.last();
        assert forall|i: int| 0 <= i < earlier.len() implies {
            let before = #[trigger] after_puts(slot, earlier.take(i));
            before.has_shown(earlier[i].seen) && before.is_fresh(earlier[i].fresh)
        } by {
            assert(earlier.take(i) =~= puts.take(i));
        }
        law_no_lost_update(slot, earlier);
        let before = after_puts(slot, earlier);
        assert(earlier =~= puts.take(puts.len() - 1));
        assert(before.has_shown(last.seen) && before.is_fresh(last.fresh));
        crate::model::lemma_put(before, last.write().mode, last.write().value, last.fresh);
        if before.admits(last.write().mode) {
            assert(last.seen_value() == before.value());
            assert(made(slot, puts).drop_last() =~= made(slot, earlier));
        }
    }
}

/// Updates that each add one to some size of the message add up: the size grows
/// by one for every update that was written.
pub proof fn law_increments_add_up<V>(
    slot: Slot<V>,
    puts: Seq<CasPut<V>>,
    size: spec_fn(Option<V>) -> int,
)
    requires
        slot.valid(),
        well_read(slot, puts),
        forall|i: int, value: Option<V>|
            0 <= i < puts.len() ==> size(Some((#[trigger] puts[i].modify)(value))) == #[trigger] size(
                value,
            ) + 1,
    ensures
        size(after_puts(slot, puts).value()) == size(slot.value()) + made(slot, puts).len(),
    decreases puts.len(),
{
    law_no_lost_update(slot, puts);
    if puts.len() > 0 {
        let earlier = puts.drop_last();
        let last = puts.last();
        assert forall|i: int| 0 <= i < earlier.len() implies {
            let before = #[trigger] after_puts(slot, earlier.take(i));
            before.has_shown(earlier[i].seen) && before.is_fresh(earlier[i].fresh)
        } by {
            assert(earlier.take(i) =~= puts.take(i));
        }
        assert forall|i: int, value: Option<V>| 0 <= i < earlier.len() implies size(
            Some((#[trigger] earlier[i].modify)(value)),
        ) == #[trigger] size(value) + 1 by {
            assert(earlier[i] == puts[i]);
        }
        law_increments_add_up(slot, earlier, size);
        law_no_lost_update(slot, earlier);
        if after_puts(slot, earlier).admits(last.write().mode) {
            assert(made(slot, puts).drop_last() =~= made(slot, earlier));
            let value = after_puts(slot, earlier).value();
            assert(size(Some((puts[puts.len() - 1].modify)(value))) == size(value) + 1);
        }
    }
}

/// How an update that gets `replies` to its writes, one after the other, ends;
/// `None` if it is not over after the last of them.
pub open spec fn ending(update: CasView, replies: Seq<Result<ObjectMeta, StoreError>>) -> Option<
    CasVerdict,
>
    decreases replies.len(),
{
    if replies.len() == 0 {
        None
    } else {
        match crate::cas::verdict(update, replies[0]) {
            CasVerdict::Reread(next) => ending(next, replies.drop_first()),
            CasVerdict::Backoff(next, _) => ending(next, replies.drop_first()),
            verdict => Some(verdict),
        }
    }
}

/// The retry budget: an update whose writes all collide or fail transiently
/// gives up exactly when one more than its retries has failed, and says so.
pub proof fn law_retries_exhausted(update: CasView, replies: Seq<Result<ObjectMeta, StoreError>>)
    requires
        update.attempts <= update.max_retries,
        update.max_retries < u32::MAX,
        forall|i: int| 0 <= i < replies.len() ==> crate::cas::counts_as_attempt(#[trigger] replies[i]),
    ensures
        ending(update, replies) == if update.attempts + replies.len() <= update.max_retries {
            None
        } else {
            Some(CasVerdict::Exhausted((update.max_retries + 1) as nat))
        },
    decreases replies.len(),
{
    if replies.len() > 0 {
        assert(crate::cas::counts_as_attempt(replies[0]));
        let next = CasView { attempts: (update.attempts + 1) as u32, ..update };
        if next.attempts <= update.max_retries {
            law_retries_exhausted(next, replies.drop_first());
        }
    }
}

/// Every update comes to an end: it has ended once its writes have been
/// answered one more time than it has retries.
pub proof fn law_update_ends(update: CasView, replies: Seq<Result<ObjectMeta, StoreError>>)
    requires
        update.attempts <= update.max_retries,
        update.max_retries < u32::MAX,
        update.attempts + replies.len() > update.max_retries,
    ensures
        ending(update, replies) is Some,
    decreases replies.len(),
{
    let next = CasView { attempts: (update.attempts + 1) as u32, ..update };
    if next.attempts <= update.max_retries {
        law_update_ends(next, replies.drop_first());
    }
}

} // verus!
