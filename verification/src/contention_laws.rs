//! What updates of one object promise when they contend: where collisions are all
//! that can go wrong, and every update has a retry for each of the others, all of
//! them succeed.

use vstd::prelude::*;

use crate::cas::{CasVerdict, CasView};
use crate::model::Slot;
use crate::store::{ObjectMeta, StoreError};

verus! {

/// How far an update has come.
#[verifier::reject_recursive_types(V)]
pub enum Phase<V> {
    /// It is about to read the object.
    Reading,
    /// It has read this, and its write is on its way.
    Writing(Option<(Seq<char>, V)>),
    /// It is over.
    Ended(CasVerdict),
}

/// One of the updates that contend.
#[verifier::reject_recursive_types(V)]
pub struct Runner<V> {
    pub update: CasView,
    /// The message that its function makes of the one it is given.
    pub modify: spec_fn(Option<V>) -> V,
    pub phase: Phase<V>,
    /// How many writes had been made when it last read the object.
    pub read_at: nat,
}

/// An object and all the updates that write it.
#[verifier::reject_recursive_types(V)]
pub struct Contest<V> {
    pub slot: Slot<V>,
    pub runners: Seq<Runner<V>>,
    /// The updates whose write was made, in order.
    pub winners: Seq<int>,
}

/// A step of one update. An update takes its steps one after the other, and
/// others take theirs in between at will, so an answer that comes late is a next
/// step that comes late.
pub enum Step {
    /// The update reads the object.
    Read { i: int },
    /// The write of the update reaches the store, which answers it. It gets the
    /// version `fresh` if it is made.
    Put { i: int, fresh: Seq<char>, reply: Result<ObjectMeta, StoreError> },
}

/// The message that an update's function is given.
pub open spec fn seen_value<V>(seen: Option<(Seq<char>, V)>) -> Option<V> {
    match seen {
        None => None,
        Some((_, value)) => Some(value),
    }
}

impl<V> Contest<V> {
    /// Whether a step can be taken, over a store that fails only by collision.
    pub open spec fn allows(self, step: Step) -> bool {
        match step {
            Step::Read { i } => 0 <= i < self.runners.len() && self.runners[i].phase is Reading,
            Step::Put { i, fresh, reply } => {
                &&& 0 <= i < self.runners.len()
                &&& self.runners[i].phase matches Phase::Writing(seen)
                &&& self.slot.is_fresh(fresh)
                &&& self.slot.can_answer(crate::model::demand(seen), fresh, reply)
                &&& match reply {
                    Ok(_) => true,
                    Err(StoreError::PreconditionFailed { key, current }) => true,
                    Err(_) => false,
                }
            },
        }
    }

    /// The contest after a step.
    pub open spec fn after(self, step: Step) -> Contest<V> {
        match step {
            Step::Read { i } => {
                let runner = Runner {
                    phase: Phase::Writing(self.slot.object),
                    read_at: self.winners.len(),
                    ..self.runners[i]
                };
                Contest { runners: self.runners.update(i, runner), ..self }
            },
            Step::Put { i, fresh, reply } => {
                let runner = self.runners[i];
                let seen = runner.phase->Writing_0;
                let value = (runner.modify)(seen_value(seen));
                let slot = self.slot.put(crate::model::demand(seen), value, fresh);
                match crate::cas::verdict(runner.update, reply) {
                    CasVerdict::Reread(update) => Contest {
                        slot,
                        runners: self.runners.update(
                            i,
                            Runner { update, phase: Phase::Reading, ..runner },
                        ),
                        ..self
                    },
                    verdict => Contest {
                        slot,
                        runners: self.runners.update(
                            i,
                            Runner { phase: Phase::Ended(verdict), ..runner },
                        ),
                        winners: if verdict is Written {
                            self.winners.push(i)
                        } else {
                            self.winners
                        },
                    },
                }
            },
        }
    }

    /// Whether the contest is about to start, with a retry for each update for
    /// each of the others.
    pub open spec fn starts(self) -> bool {
        &&& self.slot.valid()
        &&& self.winners.len() == 0
        &&& forall|i: int|
            0 <= i < self.runners.len() ==> {
                let runner = #[trigger] self.runners[i];
                &&& runner.phase is Reading
                &&& runner.update.attempts == 0
                &&& runner.update.max_retries >= self.runners.len() - 1
            }
    }

    /// Whether every update is over.
    pub open spec fn is_over(self) -> bool {
        forall|i: int| 0 <= i < self.runners.len() ==> (#[trigger] self.runners[i]).phase is Ended
    }

    /// The functions of the updates whose write was made, in order.
    pub open spec fn made(self) -> Seq<spec_fn(Option<V>) -> V> {
        Seq::new(self.winners.len(), |k: int| self.runners[self.winners[k]].modify)
    }

    /// No update is written twice, and those written are over.
    pub open spec fn winners_are_over(self) -> bool {
        &&& forall|k: int|
            0 <= k < self.winners.len() ==> {
                let i = #[trigger] self.winners[k];
                0 <= i < self.runners.len() && self.runners[i].phase == Phase::<V>::Ended(
                    CasVerdict::Written,
                )
            }
        &&& self.winners.no_duplicates()
    }

    /// An update has failed no more often than others were written before it
    /// last read, and where nothing was written since, what it read is current.
    pub open spec fn failures_are_wins_of_others(self) -> bool {
        forall|i: int|
            0 <= i < self.runners.len() ==> {
                let runner = #[trigger] self.runners[i];
                &&& runner.update.max_retries >= self.runners.len() - 1
                &&& match runner.phase {
                    Phase::Reading => runner.update.attempts <= self.winners.len(),
                    Phase::Writing(seen) => {
                        &&& runner.update.attempts <= runner.read_at <= self.winners.len()
                        &&& runner.read_at == self.winners.len() ==> seen == self.slot.object
                        &&& self.slot.has_shown(seen)
                    },
                    Phase::Ended(verdict) => verdict is Written && self.winners.contains(i),
                }
            }
    }

    /// What every step keeps.
    pub open spec fn fair(self) -> bool {
        &&& self.slot.valid()
        &&& self.winners_are_over()
        &&& self.failures_are_wins_of_others()
    }
}

/// The contest after a series of steps.
pub open spec fn run<V>(contest: Contest<V>, steps: Seq<Step>) -> Contest<V>
    decreases steps.len(),
{
    if steps.len() == 0 {
        contest
    } else {
        run(contest, steps.drop_last()).after(steps.last())
    }
}

/// Whether a series of steps can be taken.
pub open spec fn runs<V>(contest: Contest<V>, steps: Seq<Step>) -> bool
    decreases steps.len(),
{
    steps.len() == 0 || runs(contest, steps.drop_last()) && run(contest, steps.drop_last()).allows(
        steps.last(),
    )
}

/// Different numbers below `n`, none of them `missing`, are fewer than `n`.
proof fn lemma_one_missing(numbers: Seq<int>, n: nat, missing: int)
    requires
        numbers.no_duplicates(),
        0 <= missing < n,
        forall|k: int|
            0 <= k < numbers.len() ==> 0 <= #[trigger] numbers[k] < n && numbers[k] != missing,
    ensures
        numbers.len() < n,
{
    let all = vstd::set_lib::set_int_range(0, n as int);
    vstd::set_lib::lemma_int_range(0, n as int);
    numbers.unique_seq_to_set();
    let others = all.remove(missing);
    assert forall|x: int| #[trigger] numbers.to_set().contains(x) implies others.contains(x) by {
        let k = choose|k: int| 0 <= k < numbers.len() && numbers[k] == x;
        assert(numbers[k] == x);
    }
    vstd::set_lib::lemma_len_subset(numbers.to_set(), others);
}

proof fn lemma_step<V>(contest: Contest<V>, step: Step)
    requires
        contest.fair(),
        contest.allows(step),
    ensures
        contest.after(step).fair(),
        contest.after(step).slot.value() == crate::cas_laws::applied(
            contest.slot.value(),
            contest.after(step).made().skip(contest.winners.len() as int),
        ),
        contest.after(step).winners.len() >= contest.winners.len(),
        contest.after(step).made().take(contest.winners.len() as int) =~= contest.made(),
{
    let next = contest.after(step);
    let before = contest.winners.len() as int;
    match step {
        Step::Read { i } => {
            assert(next.made().skip(before) =~= Seq::empty());
            assert(!contest.winners.contains(i)) by {
                if contest.winners.contains(i) {
                    let k = choose|k: int| 0 <= k < contest.winners.len() && contest.winners[k] == i;
                    assert(contest.runners[contest.winners[k]].phase is Ended);
                }
            }
        },
        Step::Put { i, fresh, reply } => {
            let runner = contest.runners[i];
            let seen = runner.phase->Writing_0;
            let value = (runner.modify)(seen_value(seen));
            crate::model::lemma_put(contest.slot, crate::model::demand(seen), value, fresh);
            assert(!contest.winners.contains(i)) by {
                if contest.winners.contains(i) {
                    let k = choose|k: int| 0 <= k < contest.winners.len() && contest.winners[k] == i;
                    assert(contest.runners[contest.winners[k]].phase is Ended);
                }
            }
            match reply {
                Ok(_) => {
                    assert(next.winners[before] == i);
                    assert(seen_value(seen) == contest.slot.value());
                    let made = next.made().skip(before);
                    assert(made.len() == 1);
                    assert(made.drop_last() =~= Seq::empty());
                    reveal_with_fuel(crate::cas_laws::applied, 2);
                    assert forall|j: int| 0 <= j < next.runners.len() implies {
                        let other = #[trigger] next.runners[j];
                        other.phase is Ended ==> next.winners.contains(j)
                    } by {
                        if j != i && next.runners[j].phase is Ended {
                            assert(contest.runners[j].phase is Ended);
                            let k = choose|k: int|
                                0 <= k < contest.winners.len() && contest.winners[k] == j;
                            assert(next.winners[k] == j);
                        }
                    }
                },
                Err(_) => {
                    assert(runner.read_at < contest.winners.len());
                    assert forall|k: int| 0 <= k < contest.winners.len() implies 0
                        <= #[trigger] contest.winners[k] < contest.runners.len()
                        && contest.winners[k] != i by {
                        assert(contest.winners.contains(contest.winners[k]));
                    }
                    lemma_one_missing(contest.winners, contest.runners.len(), i);
                    assert(next.made().skip(before) =~= Seq::empty());
                },
            }
        },
    }
}

/// Functions applied one after the other, in two goes.
proof fn lemma_applied_further<V>(
    value: Option<V>,
    first: Seq<spec_fn(Option<V>) -> V>,
    then: Seq<spec_fn(Option<V>) -> V>,
)
    ensures
        crate::cas_laws::applied(crate::cas_laws::applied(value, first), then)
            == crate::cas_laws::applied(value, first + then),
    decreases then.len(),
{
    if then.len() == 0 {
        assert(first + then =~= first);
    } else {
        lemma_applied_further(value, first, then.drop_last());
        assert((first + then).drop_last() =~= first + then.drop_last());
    }
}

/// Contending updates all succeed. However the updates of one object interleave,
/// if they are its only writers, the store fails only by collision, and each has
/// at least one retry for each of the others, then none ends but with its write
/// made, and none fails more often than there are others. The object's message
/// is what the functions of those written give when applied one after the other;
/// and once all are over, each has been written once.
pub proof fn law_contending_updates_succeed<V>(contest: Contest<V>, steps: Seq<Step>)
    requires
        contest.starts(),
        runs(contest, steps),
    ensures
        ({
            let then = run(contest, steps);
            &&& then.runners.len() == contest.runners.len()
            &&& forall|i: int|
                0 <= i < then.runners.len() ==> {
                    let runner = #[trigger] then.runners[i];
                    &&& runner.modify == contest.runners[i].modify
                    &&& runner.phase matches Phase::Ended(verdict) ==> verdict is Written
                    &&& !(runner.phase is Ended) ==> runner.update.attempts < then.runners.len()
                }
            &&& then.slot.value() == crate::cas_laws::applied(contest.slot.value(), then.made())
            &&& then.winners.no_duplicates()
            &&& then.is_over() ==> forall|i: int|
                0 <= i < then.runners.len() ==> #[trigger] then.winners.contains(i)
        }),
{
    lemma_run(contest, steps);
    let then = run(contest, steps);
    assert forall|i: int| 0 <= i < then.runners.len() implies {
        let runner = #[trigger] then.runners[i];
        !(runner.phase is Ended) ==> runner.update.attempts < then.runners.len()
    } by {
        if !(then.runners[i].phase is Ended) {
            assert forall|k: int| 0 <= k < then.winners.len() implies 0 <= #[trigger] then.winners[k]
                < then.runners.len() && then.winners[k] != i by {}
            lemma_one_missing(then.winners, then.runners.len(), i);
        }
    }
    if then.is_over() {
        assert forall|i: int| 0 <= i < then.runners.len() implies #[trigger] then.winners.contains(
            i,
        ) by {
            assert(then.runners[i].phase is Ended);
        }
    }
}

proof fn lemma_run<V>(contest: Contest<V>, steps: Seq<Step>)
    requires
        contest.starts(),
        runs(contest, steps),
    ensures
        ({
            let then = run(contest, steps);
            &&& then.fair()
            &&& then.runners.len() == contest.runners.len()
            &&& forall|i: int|
                0 <= i < then.runners.len() ==> (#[trigger] then.runners[i]).modify
                    == contest.runners[i].modify
            &&& then.slot.value() == crate::cas_laws::applied(contest.slot.value(), then.made())
        }),
    decreases steps.len(),
{
    if steps.len() == 0 {
        assert(contest.made() =~= Seq::empty());
    } else {
        lemma_run(contest, steps.drop_last());
        let before = run(contest, steps.drop_last());
        let then = run(contest, steps);
        lemma_step(before, steps.last());
        let further = then.made().skip(before.winners.len() as int);
        lemma_applied_further(contest.slot.value(), before.made(), further);
        assert(before.made() + further =~= then.made());
    }
}

/// A list that may be absent.
pub open spec fn listed<A>(list: Option<Seq<A>>) -> Seq<A> {
    match list {
        None => Seq::empty(),
        Some(list) => list,
    }
}

/// Contending appends are all kept: where the object is a list, and each update
/// adds its own tag at the end, the list is at every time the one it started as,
/// followed by the tags of the updates written so far, each once; and once all
/// are over, by the tags of all of them.
pub proof fn law_contending_appends_are_kept<A>(
    contest: Contest<Seq<A>>,
    steps: Seq<Step>,
    tags: Seq<A>,
)
    requires
        contest.starts(),
        runs(contest, steps),
        tags.len() == contest.runners.len(),
        forall|i: int, list: Option<Seq<A>>|
            0 <= i < tags.len() ==> (#[trigger] contest.runners[i].modify)(list)
                == #[trigger] listed(list).push(tags[i]),
    ensures
        ({
            let then = run(contest, steps);
            &&& listed(then.slot.value()) == listed(contest.slot.value()) + Seq::new(
                then.winners.len(),
                |k: int| tags[then.winners[k]],
            )
            &&& then.winners.no_duplicates()
            &&& forall|k: int|
                0 <= k < then.winners.len() ==> 0 <= #[trigger] then.winners[k] < tags.len()
            &&& then.is_over() ==> then.winners.len() == tags.len() && forall|i: int|
                0 <= i < tags.len() ==> #[trigger] then.winners.contains(i)
        }),
{
    law_contending_updates_succeed(contest, steps);
    lemma_run(contest, steps);
    let then = run(contest, steps);
    let added = Seq::new(then.winners.len(), |k: int| tags[then.winners[k]]);
    assert forall|k: int| 0 <= k < then.winners.len() implies 0 <= #[trigger] then.winners[k]
        < tags.len() by {}
    assert forall|k: int, list: Option<Seq<A>>| 0 <= k < then.made().len() implies (
    #[trigger] then.made()[k])(list) == #[trigger] listed(list).push(added[k]) by {
        let i = then.winners[k];
        assert(then.runners[i].modify == contest.runners[i].modify);
        assert((contest.runners[i].modify)(list) == listed(list).push(tags[i]));
    }
    lemma_appended(contest.slot.value(), then.made(), added);
    if then.is_over() {
        lemma_all_there(then.winners, tags.len());
    }
}

proof fn lemma_appended<A>(
    value: Option<Seq<A>>,
    functions: Seq<spec_fn(Option<Seq<A>>) -> Seq<A>>,
    added: Seq<A>,
)
    requires
        functions.len() == added.len(),
        forall|k: int, list: Option<Seq<A>>|
            0 <= k < functions.len() ==> (#[trigger] functions[k])(list) == #[trigger] listed(
                list,
            ).push(added[k]),
    ensures
        listed(crate::cas_laws::applied(value, functions)) == listed(value) + added,
    decreases functions.len(),
{
    if functions.len() == 0 {
        assert(listed(value) + added =~= listed(value));
    } else {
        let earlier = functions.drop_last();
        assert forall|k: int, list: Option<Seq<A>>| 0 <= k < earlier.len() implies (
        #[trigger] earlier[k])(list) == #[trigger] listed(list).push(added.drop_last()[k]) by {
            assert(functions[k] == earlier[k]);
            assert(functions[k](list) == listed(list).push(added[k]));
        }
        lemma_appended(value, earlier, added.drop_last());
        let before = crate::cas_laws::applied(value, earlier);
        let last = functions.len() - 1;
        assert(functions[last](before) == listed(before).push(added[last]));
        assert(listed(value) + added =~= (listed(value) + added.drop_last()).push(added[last]));
    }
}

/// Different numbers below `n` that are all there are `n` of them.
proof fn lemma_all_there(numbers: Seq<int>, n: nat)
    requires
        numbers.no_duplicates(),
        forall|k: int| 0 <= k < numbers.len() ==> 0 <= #[trigger] numbers[k] < n,
        forall|i: int| 0 <= i < n ==> #[trigger] numbers.contains(i),
    ensures
        numbers.len() == n,
{
    let all = vstd::set_lib::set_int_range(0, n as int);
    vstd::set_lib::lemma_int_range(0, n as int);
    numbers.unique_seq_to_set();
    assert(numbers.to_set() =~= all) by {
        assert forall|x: int| numbers.to_set().contains(x) <==> #[trigger] all.contains(x) by {
            if numbers.to_set().contains(x) {
                let k = choose|k: int| 0 <= k < numbers.len() && numbers[k] == x;
                assert(numbers[k] == x);
            }
            if all.contains(x) {
                assert(numbers.contains(x));
            }
        }
    }
}

} // verus!
