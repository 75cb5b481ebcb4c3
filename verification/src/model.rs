//! A model of one object in a store whose conditional writes are atomic, over
//! which the laws of the library are stated.

use vstd::prelude::*;

use crate::store::{ObjectMeta, StoreError};

verus! {

/// One object through its life. Objects are written and overwritten, never
/// deleted.
pub struct Slot<V> {
    /// The current version and value, `None` while the object is absent.
    pub object: Option<(Seq<char>, V)>,
    /// Every version ever given out, with the value written under it.
    pub issued: Map<Seq<char>, V>,
}

impl<V> Slot<V> {
    /// An object that has never been written.
    pub open spec fn absent() -> Slot<V> {
        Slot { object: None, issued: Map::empty() }
    }

    /// What is current has been given out, and an object that is absent has
    /// never been written.
    pub open spec fn valid(self) -> bool {
        match self.object {
            None => self.issued == Map::<Seq<char>, V>::empty(),
            Some((version, value)) => self.issued.contains_pair(version, value),
        }
    }

    /// The current version.
    pub open spec fn version(self) -> Option<Seq<char>> {
        match self.object {
            None => None,
            Some((version, _)) => Some(version),
        }
    }

    /// The current value.
    pub open spec fn value(self) -> Option<V> {
        match self.object {
            None => None,
            Some((_, value)) => Some(value),
        }
    }

    /// Whether a write with the given demand is made.
    pub open spec fn admits(self, mode: Option<Seq<char>>) -> bool {
        mode == self.version()
    }

    /// Whether `version` has not been given out yet.
    pub open spec fn is_fresh(self, version: Seq<char>) -> bool {
        !self.issued.contains_key(version)
    }

    /// The object after a write of `value`, which gets the version `fresh` if
    /// it is made.
    pub open spec fn put(self, mode: Option<Seq<char>>, value: V, fresh: Seq<char>) -> Slot<V> {
        if self.admits(mode) {
            Slot { object: Some((fresh, value)), issued: self.issued.insert(fresh, value) }
        } else {
            self
        }
    }

    /// Whether a reader can have read `seen` by now, however long ago.
    pub open spec fn has_shown(self, seen: Option<(Seq<char>, V)>) -> bool {
        match seen {
            None => true,
            Some((version, value)) => self.issued.contains_pair(version, value),
        }
    }

    /// Whether the store can answer a write so: it reports a write only if it
    /// was made, a collision only if it was not, and absence only of an absent
    /// object. Any other failure leaves open whether the write was made.
    pub open spec fn can_answer(
        self,
        mode: Option<Seq<char>>,
        fresh: Seq<char>,
        reply: Result<ObjectMeta, StoreError>,
    ) -> bool {
        match reply {
            Ok(meta) => self.admits(mode) && meta.version@ == fresh,
            Err(StoreError::PreconditionFailed { key, current }) => !self.admits(mode),
            Err(StoreError::NotFound { key }) => self.object is None,
            Err(_) => true,
        }
    }
}

/// The demand of a write that goes by what was read: the version read, or that
/// the object be absent.
pub open spec fn demand<V>(seen: Option<(Seq<char>, V)>) -> Option<Seq<char>> {
    match seen {
        None => None,
        Some((version, _)) => Some(version),
    }
}

/// A write, with the version it gets if it is made.
pub struct Write<V> {
    pub mode: Option<Seq<char>>,
    pub value: V,
    pub fresh: Seq<char>,
}

/// The object after a series of writes.
pub open spec fn after<V>(slot: Slot<V>, writes: Seq<Write<V>>) -> Slot<V>
    decreases writes.len(),
{
    if writes.len() == 0 {
        slot
    } else {
        let last = writes.last();
        after(slot, writes.drop_last()).put(last.mode, last.value, last.fresh)
    }
}

/// Whether every write of a series gets a version that was not given out
/// before.
pub open spec fn versions_fresh<V>(slot: Slot<V>, writes: Seq<Write<V>>) -> bool {
    forall|i: int|
        0 <= i < writes.len() ==> #[trigger] after(slot, writes.take(i)).is_fresh(writes[i].fresh)
}

/// A write keeps the object valid, and every version it ever had on record.
pub proof fn lemma_put<V>(slot: Slot<V>, mode: Option<Seq<char>>, value: V, fresh: Seq<char>)
    requires
        slot.valid(),
        slot.is_fresh(fresh),
    ensures
        slot.put(mode, value, fresh).valid(),
        slot.issued.submap_of(slot.put(mode, value, fresh).issued),
{
}

/// Of writes that all go by one and the same state of the object, exactly one is
/// made: the first to arrive is, and no later one, whatever else is written in
/// between.
pub proof fn law_one_winner<V>(slot: Slot<V>, writes: Seq<Write<V>>)
    requires
        slot.valid(),
        versions_fresh(slot, writes),
        writes.len() > 0,
        writes[0].mode == slot.version(),
    ensures
        after(slot, writes.take(0)).admits(writes[0].mode),
        forall|later: int|
            0 < later < writes.len() && writes[later].mode == slot.version() ==> !(#[trigger] after(
                slot,
                writes.take(later),
            )).admits(writes[later].mode),
{
    assert(writes.take(0) =~= Seq::<Write<V>>::empty());
    assert forall|later: int|
        0 < later < writes.len() && writes[later].mode == slot.version() implies !(#[trigger] after(
        slot,
        writes.take(later),
    )).admits(writes[later].mode) by {
        lemma_moved_on(slot, writes, later);
    }
}

/// Once the first write of a series has been made, the object never again has
/// the version it had before.
proof fn lemma_moved_on<V>(slot: Slot<V>, writes: Seq<Write<V>>, n: int)
    requires
        slot.valid(),
        versions_fresh(slot, writes),
        0 < n <= writes.len(),
        slot.admits(writes[0].mode),
    ensures
        after(slot, writes.take(n)).valid(),
        slot.issued.submap_of(after(slot, writes.take(n)).issued),
        after(slot, writes.take(n)).object is Some,
        after(slot, writes.take(n)).version() != slot.version(),
    decreases n,
{
    let before = after(slot, writes.take(n - 1));
    assert(writes.take(n).drop_last() =~= writes.take(n - 1));
    assert(before.is_fresh(writes[n - 1].fresh));
    if n == 1 {
        assert(writes.take(0) =~= Seq::<Write<V>>::empty());
    } else {
        lemma_moved_on(slot, writes, n - 1);
    }
    lemma_put(before, writes[n - 1].mode, writes[n - 1].value, writes[n - 1].fresh);
    assert forall|version: Seq<char>| #[trigger]
        slot.issued.contains_key(version) implies after(slot, writes.take(n)).issued.contains_key(
        version,
    ) && after(slot, writes.take(n)).issued[version] == slot.issued[version] by {
        assert(before.issued.contains_key(version));
    }
}

} // verus!
