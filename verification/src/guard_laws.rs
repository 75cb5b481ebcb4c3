//! What one guard promises over any number of calls: how its heartbeats are
//! numbered, how often it asks for its lease to be given up, and in which order
//! its background task sleeps and sends.

use vstd::prelude::*;

use crate::error::CoordError;
use crate::guard::{GuardView, TaskView};
use crate::lease::LeaseView;
use crate::model::Slot;
use crate::store::{ObjectMeta, StoreError};

verus! {

/// A heartbeat sent at `now` for `ttl`, and what the store answered.
pub struct Beat {
    pub now: int,
    pub ttl: int,
    pub reply: Result<ObjectMeta, StoreError>,
}

/// The guard after a series of heartbeats.
pub open spec fn after_beats(guard: GuardView, beats: Seq<Beat>) -> GuardView
    decreases beats.len(),
{
    if beats.len() == 0 {
        guard
    } else {
        let last = beats.last();
        after_beats(guard, beats.drop_last()).after_heartbeat(last.now, last.ttl, last.reply)
    }
}

/// The version that the last successful heartbeat of a series was answered with,
/// `first` if there was none.
pub open spec fn last_answered(first: Seq<char>, beats: Seq<Beat>) -> Seq<char>
    decreases beats.len(),
{
    if beats.len() == 0 {
        first
    } else {
        match beats.last().reply {
            Ok(meta) => meta.version@,
            Err(_) => last_answered(first, beats.drop_last()),
        }
    }
}

/// When the lease runs out by the last successful heartbeat of a series, `first`
/// if there was none.
pub open spec fn last_expiry(first: int, beats: Seq<Beat>) -> int
    decreases beats.len(),
{
    if beats.len() == 0 {
        first
    } else if beats.last().reply is Ok {
        beats.last().now + beats.last().ttl
    } else {
        last_expiry(first, beats.drop_last())
    }
}

/// The expiry follows the heartbeats: after any series of them, however long,
/// the guard's expiry is `ttl` after the sending of the last one that succeeded,
/// and the one it had at first if none did. Whether the lease was given up is
/// not changed by heartbeats.
pub proof fn law_expiry_follows_the_heartbeats(guard: GuardView, beats: Seq<Beat>)
    ensures
        after_beats(guard, beats).expires_at == last_expiry(guard.expires_at, beats),
        after_beats(guard, beats).released == guard.released,
    decreases beats.len(),
{
    if beats.len() > 0 {
        law_expiry_follows_the_heartbeats(guard, beats.drop_last());
    }
}

/// Heartbeats are numbered: after any series of them, whichever failed, the next
/// one writes the epoch that counts all of them, over the version that the last
/// successful one was answered with. Holder, purpose, key and fencing token stay
/// as they were.
pub proof fn law_nth_heartbeat(guard: GuardView, beats: Seq<Beat>, now: int, ttl: int)
    ensures
        ({
            let then = after_beats(guard, beats);
            &&& then.heartbeat_record(now, ttl) == crate::lease::held_lease(
                guard.holder,
                guard.purpose,
                now,
                ttl,
                guard.epoch + beats.len() + 1,
            )
            &&& then.version == last_answered(guard.version, beats)
            &&& then.key == guard.key
            &&& then.fence_token == guard.fence_token
        }),
    decreases beats.len(),
{
    if beats.len() > 0 {
        law_nth_heartbeat(guard, beats.drop_last(), now, ttl);
    }
}

/// The stored record after a series of heartbeats that all reach the store and
/// that no one else's write comes between, where `fresh` are the versions they
/// get if they are written.
pub open spec fn slot_after_beats(
    slot: Slot<LeaseView>,
    guard: GuardView,
    beats: Seq<Beat>,
    fresh: Seq<Seq<char>>,
) -> Slot<LeaseView>
    decreases beats.len(),
{
    if beats.len() == 0 {
        slot
    } else {
        let last = beats.last();
        let sender = after_beats(guard, beats.drop_last());
        slot_after_beats(slot, guard, beats.drop_last(), fresh).put(
            Some(sender.version),
            sender.heartbeat_record(last.now, last.ttl),
            fresh[beats.len() - 1],
        )
    }
}

/// Whether the store answers every heartbeat of such a series, without failing.
pub open spec fn answers_all(
    slot: Slot<LeaseView>,
    guard: GuardView,
    beats: Seq<Beat>,
    fresh: Seq<Seq<char>>,
) -> bool {
    forall|i: int|
        #![trigger beats[i]]
        0 <= i < beats.len() ==> {
            &&& slot_after_beats(slot, guard, beats.take(i), fresh).can_answer(
                Some(after_beats(guard, beats.take(i)).version),
                fresh[i],
                beats[i].reply,
            )
            &&& match beats[i].reply {
                Ok(_) => true,
                Err(StoreError::PreconditionFailed { key, current }) => true,
                Err(_) => false,
            }
        }
}

/// A guard without rivals keeps its lease: while no one else writes and the store
/// does not fail, each of any number of heartbeats succeeds.
pub proof fn law_heartbeats_without_rivals_succeed(
    slot: Slot<LeaseView>,
    guard: GuardView,
    beats: Seq<Beat>,
    fresh: Seq<Seq<char>>,
)
    requires
        slot.version() == Some(guard.version),
        answers_all(slot, guard, beats, fresh),
    ensures
        forall|i: int|
            0 <= i < beats.len() ==> crate::guard::heartbeat_outcome((#[trigger] beats[i]).reply)
                == Ok::<(), CoordError>(()),
        slot_after_beats(slot, guard, beats, fresh).version() == Some(
            after_beats(guard, beats).version,
        ),
    decreases beats.len(),
{
    if beats.len() > 0 {
        let earlier = beats.drop_last();
        assert forall|i: int| #![trigger earlier[i]] 0 <= i < earlier.len() implies {
            &&& slot_after_beats(slot, guard, earlier.take(i), fresh).can_answer(
                Some(after_beats(guard, earlier.take(i)).version),
                fresh[i],
                earlier[i].reply,
            )
            &&& match earlier[i].reply {
                Ok(_) => true,
                Err(StoreError::PreconditionFailed { key, current }) => true,
                Err(_) => false,
            }
        } by {
            assert(earlier.take(i) =~= beats.take(i));
            assert(earlier[i] == beats[i]);
        }
        law_heartbeats_without_rivals_succeed(slot, guard, earlier, fresh);
        assert(earlier =~= beats.take(beats.len() - 1));
        assert(beats.last() == beats[beats.len() - 1]);
        assert forall|i: int| 0 <= i < beats.len() implies crate::guard::heartbeat_outcome(
            (#[trigger] beats[i]).reply,
        ) == Ok::<(), CoordError>(()) by {
            if i < earlier.len() {
                assert(beats[i] == earlier[i]);
            }
        }
    }
}

/// A call that ends a guard's life.
pub enum GuardCall {
    /// The lease is given up.
    Release,
    /// The background task finds the lease lost.
    Lost,
    /// The guard goes out of use.
    Drop,
}

/// The guard after a series of such calls.
pub open spec fn after_calls(guard: GuardView, calls: Seq<GuardCall>) -> GuardView {
    if calls.len() == 0 {
        guard
    } else {
        guard.given_up()
    }
}

/// How many releases a series of such calls starts.
pub open spec fn releases_asked(guard: GuardView, calls: Seq<GuardCall>) -> nat
    decreases calls.len(),
{
    if calls.len() == 0 {
        0
    } else {
        let before = after_calls(guard, calls.drop_last());
        let asked = match calls.last() {
            GuardCall::Release => 1nat,
            GuardCall::Lost => 0nat,
            GuardCall::Drop => if before.asks_on_drop() {
                1nat
            } else {
                0nat
            },
        };
        releases_asked(guard, calls.drop_last()) + asked
    }
}

/// A lease is given up once: a guard that goes out of use after it was given up,
/// or its lease found lost, asks the store for nothing more, so releasing and
/// then dropping a guard starts one release in all, and dropping one that was not
/// given up starts one too. The fencing token stands.
pub proof fn law_given_up_once(guard: GuardView, calls: Seq<GuardCall>)
    ensures
        calls.len() > 0 ==> releases_asked(guard, calls.push(GuardCall::Drop)) == releases_asked(
            guard,
            calls,
        ),
        releases_asked(guard, seq![GuardCall::Release, GuardCall::Drop]) == 1,
        releases_asked(guard, seq![GuardCall::Lost, GuardCall::Drop]) == 0,
        releases_asked(guard, seq![GuardCall::Drop]) == if guard.released {
            0nat
        } else {
            1nat
        },
        after_calls(guard, calls).fence_token == guard.fence_token,
{
    let dropped = calls.push(GuardCall::Drop);
    assert(dropped.drop_last() =~= calls);
    reveal_with_fuel(releases_asked, 3);
    let released = seq![GuardCall::Release, GuardCall::Drop];
    assert(released.drop_last() =~= seq![GuardCall::Release]);
    assert(released.drop_last().drop_last() =~= Seq::<GuardCall>::empty());
    let lost = seq![GuardCall::Lost, GuardCall::Drop];
    assert(lost.drop_last() =~= seq![GuardCall::Lost]);
    assert(lost.drop_last().drop_last() =~= Seq::<GuardCall>::empty());
    assert(seq![GuardCall::Drop].drop_last() =~= Seq::<GuardCall>::empty());
}

/// What a background task does.
pub enum TaskAction {
    /// It sleeps for so long.
    Sleep(int),
    /// It sends a heartbeat for so long.
    Heartbeat(int),
}

/// One round of a background task: the guard it wakes up to, and the outcome of
/// its heartbeat if it sends one.
pub struct TaskRound {
    pub guard: GuardView,
    pub outcome: Result<(), CoordError>,
}

impl TaskRound {
    /// Whether the task ends in this round.
    pub open spec fn is_last(self) -> bool {
        !crate::guard::sends_on_wake(self.guard) || !crate::guard::goes_on_after(self.outcome)
    }
}

/// Whether a task has ended after a series of rounds.
pub open spec fn task_over(rounds: Seq<TaskRound>) -> bool
    decreases rounds.len(),
{
    if rounds.len() == 0 {
        false
    } else {
        task_over(rounds.drop_last()) || rounds.last().is_last()
    }
}

/// What a task has done after a series of rounds, with the sleep that it is in if
/// it has not ended.
pub open spec fn task_actions(task: TaskView, rounds: Seq<TaskRound>) -> Seq<TaskAction>
    decreases rounds.len(),
{
    if rounds.len() == 0 {
        seq![TaskAction::Sleep(task.every)]
    } else {
        let before = task_actions(task, rounds.drop_last());
        let last = rounds.last();
        if task_over(rounds.drop_last()) || !crate::guard::sends_on_wake(last.guard) {
            before
        } else if !crate::guard::goes_on_after(last.outcome) {
            before.push(TaskAction::Heartbeat(task.ttl))
        } else {
            before.push(TaskAction::Heartbeat(task.ttl)).push(TaskAction::Sleep(task.every))
        }
    }
}

/// A background task sleeps before every heartbeat, the first one too, and sends
/// one heartbeat after every sleep that is not its last. It ends exactly if it
/// wakes up to a guard that was given up, or a heartbeat finds the lease lost;
/// any other failure does not end it.
pub proof fn law_task_sleeps_first(task: TaskView, rounds: Seq<TaskRound>)
    ensures
        ({
            let actions = task_actions(task, rounds);
            &&& 0 < actions.len() <= 2 * rounds.len() + 1
            &&& forall|i: int|
                0 <= i < actions.len() ==> (#[trigger] actions[i]) == if i % 2 == 0 {
                    TaskAction::Sleep(task.every)
                } else {
                    TaskAction::Heartbeat(task.ttl)
                }
            &&& !task_over(rounds) ==> actions.len() == 2 * rounds.len() + 1
        }),
        task_over(rounds) <==> exists|i: int|
            0 <= i < rounds.len() && (#[trigger] rounds[i]).is_last(),
    decreases rounds.len(),
{
    if rounds.len() > 0 {
        let earlier = rounds.drop_last();
        law_task_sleeps_first(task, earlier);
        assert(rounds.last() == rounds[rounds.len() - 1]);
        if task_over(earlier) {
            let i = choose|i: int| 0 <= i < earlier.len() && (#[trigger] earlier[i]).is_last();
            assert(rounds[i] == earlier[i]);
        }
        if !task_over(rounds) {
            assert forall|i: int| 0 <= i < rounds.len() implies !(#[trigger] rounds[i]).is_last() by {
                if i < earlier.len() {
                    assert(rounds[i] == earlier[i]);
                }
            }
        }
    }
}

} // verus!
