//! Runs in which every action succeeds, from the first action to the last.

use vstd::prelude::*;
use crate::identifier::{above, Identifier};
use crate::index::{
    canonical, complete_count, lemma_lead, lemma_put, presence, put, take_out, Record, Slot,
};
use crate::machine::{lemma_next_wf, Action, Event, Machine, Phase, Step};
use crate::outcome::{admitted, installed, law_second_run_changes_nothing, lemma_installed, outcome};
use crate::retention::{
    evicted, kept, law_retention_keeps_the_highest, lemma_purge_leaves_survivors, lemma_survivors,
    purge,
};

verus! {

/// The number of actions that a step of an installation can still be
/// followed by in its generation, itself included.
pub open spec fn actions_left(step: Step) -> nat {
    match step {
        Step::BuildStub => 9,
        Step::SignStub => 8,
        Step::SignKernel => 7,
        Step::SignInitrd => 6,
        Step::PublishKernel => 5,
        Step::PublishInitrd => 4,
        Step::PublishStub => 3,
        Step::RetractInitrd => 2,
        Step::RetractKernel => 1,
        Step::WriteEntry => 1,
    }
}

/// The number of files that a step of an installation can still be
/// followed by writing in its generation.
pub open spec fn writes_left(step: Step) -> nat {
    match step {
        Step::PublishInitrd => 3,
        Step::PublishStub => 2,
        Step::WriteEntry => 1,
        Step::RetractInitrd | Step::RetractKernel => 0,
        _ => 4,
    }
}

/// The number of files of an evicted set that are deleted before `file`.
pub open spec fn deleted_before(file: Slot) -> nat {
    match file {
        Slot::Entry => 0,
        Slot::Stub => 1,
        Slot::Kernel => 2,
        Slot::Initrd => 3,
    }
}

/// A number of actions after which a run has ended for certain, however
/// the actions end.
pub open spec fn actions_at_most(m: Machine) -> nat {
    match m.stage {
        Phase::Installing { cursor, step } => {
            let later = (m.requested.len() - cursor - 1) as nat;
            actions_left(step) + 9 * later + 4 * (m.index.len() + writes_left(step) + 4 * later)
        },
        Phase::Collecting { position, file } => (4 * (m.evictions.len() - position)
            - deleted_before(file)) as nat,
        Phase::Finished => 0,
    }
}

/// The run after its actions have ended as the events say, one after the
/// other.
pub open spec fn after(m: Machine, events: Seq<Event>) -> Machine
    decreases events.len(),
{
    if events.len() == 0 {
        m
    } else {
        after(m, events.drop_last()).next(events.last())
    }
}

/// Writing a file adds at most one record to the index, deleting one adds
/// none, and no more identifiers are evicted than the index has records.
pub proof fn lemma_lengths(s: Seq<Record>, id: Identifier, slot: Slot, limit: nat)
    requires
        canonical(s),
    ensures
        put(s, id, slot).len() <= s.len() + 1,
        take_out(s, id, slot).len() <= s.len(),
        evicted(s, limit).len() <= s.len(),
    decreases s.len(),
{
    lemma_lead(s, id);
    if s.len() > 0 {
        lemma_lengths(s.drop_last(), id, slot, limit);
    }
}

/// Every action brings the end of the run nearer, however it ends.
pub proof fn lemma_nearer_the_end(m: Machine, event: Event)
    requires
        m.wf(),
        !(m.stage is Finished),
    ensures
        actions_at_most(m.next(event)) < actions_at_most(m),
{
    match m.stage {
        Phase::Installing { cursor, step } => {
            let id = m.requested[cursor as int];
            lemma_lengths(m.index, id, Slot::Kernel, m.limit);
            lemma_lengths(m.index, id, Slot::Initrd, m.limit);
            lemma_lengths(m.index, id, Slot::Stub, m.limit);
            lemma_lengths(m.index, id, Slot::Entry, m.limit);
            lemma_put(m.index, id, Slot::Entry);
            lemma_lengths(put(m.index, id, Slot::Entry), id, Slot::Entry, m.limit);
        },
        _ => {},
    }
}

/// Every run comes to an end: after as many actions as `actions_at_most`
/// says it has ended, whether the actions succeed or fail. Nothing is tried
/// a second time.
pub proof fn law_every_run_ends(m: Machine, events: Seq<Event>)
    requires
        m.wf(),
    ensures
        after(m, events).wf(),
        after(m, events).stage is Finished || actions_at_most(after(m, events)) + events.len()
            <= actions_at_most(m),
        events.len() >= actions_at_most(m) ==> after(m, events).stage is Finished,
    decreases events.len(),
{
    if events.len() > 0 {
        let before = after(m, events.drop_last());
        law_every_run_ends(m, events.drop_last());
        lemma_next_wf(before, events.last());
        if !(before.stage is Finished) {
            lemma_nearer_the_end(before, events.last());
        }
    }
}

/// A run between two generations: nothing pending, no error, the partition
/// as `index` lists it.
pub open spec fn idle(requested: Seq<Identifier>, limit: nat, index: Seq<Record>) -> Machine {
    Machine {
        requested,
        limit,
        index,
        stage: Phase::Finished,
        evictions: Seq::empty(),
        fault: None,
        failures: Seq::empty(),
    }
}

/// A run that collects, after the first `position` evictions have been
/// carried out on a partition that was as `index` lists it.
pub open spec fn collecting(
    requested: Seq<Identifier>,
    limit: nat,
    index: Seq<Record>,
    position: nat,
) -> Machine {
    let evictions = evicted(index, limit);
    Machine {
        index: purge(index, evictions.take(position as int)),
        evictions,
        ..idle(requested, limit, index)
    }.collect(position)
}

/// A run that has carried out all evictions on a partition that was as
/// `index` lists it.
pub open spec fn collected(requested: Seq<Identifier>, limit: nat, index: Seq<Record>) -> Machine {
    Machine {
        index: purge(index, evicted(index, limit)),
        evictions: evicted(index, limit),
        ..idle(requested, limit, index)
    }
}

/// Successes in a row add up.
pub proof fn lemma_succeed_add(m: Machine, a: nat, b: nat)
    ensures
        m.succeed(a + b) == m.succeed(a).succeed(b),
    decreases a,
{
    if a > 0 {
        lemma_succeed_add(m.next(Event::Succeeded), (a - 1) as nat, b);
    }
}

/// The number of actions that install a generation: one where its artifact
/// set is fully present, else eight.
pub open spec fn actions_to_install(index: Seq<Record>, id: Identifier) -> nat {
    if presence(index, id).complete() {
        1
    } else {
        8
    }
}

/// Installing one generation, every action succeeding, leaves the run
/// before the next generation with the one installed.
pub proof fn lemma_install_one(
    requested: Seq<Identifier>,
    limit: nat,
    index: Seq<Record>,
    cursor: nat,
)
    requires
        cursor < requested.len(),
    ensures
        idle(requested, limit, index).arrive(cursor).succeed(
            actions_to_install(index, requested[cursor as int]),
        ) == idle(requested, limit, admitted(index, requested[cursor as int])).arrive(cursor + 1),
{
    reveal_with_fuel(Machine::succeed, 9);
}

/// A generation whose artifact set is fully present is not built, signed
/// or published again: the run only writes its loader entry and turns to
/// the next generation.
pub proof fn law_present_set_is_not_published_again(
    requested: Seq<Identifier>,
    limit: nat,
    index: Seq<Record>,
    cursor: nat,
)
    requires
        cursor < requested.len() <= usize::MAX,
        presence(index, requested[cursor as int]).complete(),
    ensures
        ({
            let m = idle(requested, limit, index).arrive(cursor);
            &&& m.pending() == Action::WriteEntry { generation: cursor as usize }
            &&& m.next(Event::Succeeded) == idle(
                requested,
                limit,
                put(index, requested[cursor as int], Slot::Entry),
            ).arrive(cursor + 1)
        }),
{
}

/// A run that has ended stays as it is.
pub proof fn lemma_finished_stays(m: Machine, count: nat)
    requires
        m.stage is Finished,
    ensures
        m.succeed(count) == m,
    decreases count,
{
    if count > 0 {
        lemma_finished_stays(m, (count - 1) as nat);
    }
}

/// Where a run has ended after some successes, it has ended in the same
/// state after any other number of successes that ends it.
pub proof fn lemma_one_end(m: Machine, a: nat, b: nat)
    requires
        m.succeed(a).stage is Finished,
        m.succeed(b).stage is Finished,
    ensures
        m.succeed(a) == m.succeed(b),
{
    if a <= b {
        lemma_succeed_add(m, a, (b - a) as nat);
        lemma_finished_stays(m.succeed(a), (b - a) as nat);
    } else {
        lemma_succeed_add(m, b, (a - b) as nat);
        lemma_finished_stays(m.succeed(b), (a - b) as nat);
    }
}

/// Installing the generations from `cursor` on, every action succeeding,
/// leaves the run at the start of collection with all of them installed.
pub proof fn lemma_install_rest(
    requested: Seq<Identifier>,
    limit: nat,
    index: Seq<Record>,
    cursor: nat,
) -> (steps: nat)
    requires
        cursor <= requested.len(),
    ensures
        idle(requested, limit, installed(index, requested.take(cursor as int))).arrive(
            cursor,
        ).succeed(steps) == collecting(requested, limit, installed(index, requested), 0),
    decreases requested.len() - cursor,
{
    let here = installed(index, requested.take(cursor as int));
    if cursor == requested.len() {
        assert(requested.take(cursor as int) =~= requested);
        0
    } else {
        let id = requested[cursor as int];
        let first = actions_to_install(here, id);
        lemma_install_one(requested, limit, here, cursor);
        assert(requested.take(cursor + 1 as int).drop_last() =~= requested.take(cursor as int));
        let rest = lemma_install_rest(requested, limit, index, cursor + 1);
        lemma_succeed_add(idle(requested, limit, here).arrive(cursor), first, rest);
        first + rest
    }
}

/// Carrying out the evictions from `position` on, every deletion
/// succeeding, ends the run with all of them carried out.
pub proof fn lemma_collect_rest(
    requested: Seq<Identifier>,
    limit: nat,
    index: Seq<Record>,
    position: nat,
) -> (steps: nat)
    requires
        position <= evicted(index, limit).len(),
    ensures
        collecting(requested, limit, index, position).succeed(steps) == collected(
            requested,
            limit,
            index,
        ),
    decreases evicted(index, limit).len() - position,
{
    let evictions = evicted(index, limit);
    if position == evictions.len() {
        assert(evictions.take(position as int) =~= evictions);
        0
    } else {
        reveal_with_fuel(Machine::succeed, 5);
        assert(evictions.take(position + 1 as int).drop_last() =~= evictions.take(position as int));
        let rest = lemma_collect_rest(requested, limit, index, position + 1);
        4 + rest
    }
}

/// A run in which every action succeeds comes to an end, without an error
/// and without a failed deletion. It leaves the requested generations
/// installed, as far as they stay under the limit, and besides them the
/// artifact sets that were there before, as far as they stay.
pub proof fn law_successful_run(
    requested: Seq<Identifier>,
    limit: nat,
    index: Seq<Record>,
) -> (steps: nat)
    requires
        canonical(index),
    ensures
        ({
            let end = Machine::start(requested, limit, index).succeed(steps);
            &&& end.stage is Finished
            &&& end.fault is None
            &&& end.failures.len() == 0
            &&& end.index == outcome(index, requested, limit)
            &&& canonical(end.index)
        }),
{
    let installing = lemma_install_rest(requested, limit, index, 0);
    let all = installed(index, requested);
    lemma_installed(index, requested);
    let collecting_steps = lemma_collect_rest(requested, limit, all, 0);
    lemma_succeed_add(Machine::start(requested, limit, index), installing, collecting_steps);
    lemma_purge_leaves_survivors(all, limit);
    lemma_survivors(all, limit);
    installing + collecting_steps
}

/// After a run in which every action succeeds, at most `limit` artifact
/// sets remain, or all that were fully present after the installation if
/// these are fewer. Those that remain are fully present, and each of them
/// outranks every fully present set that was deleted: they are the sets of
/// the highest versions, whether requested in this run or not.
pub proof fn law_run_keeps_the_highest(
    requested: Seq<Identifier>,
    limit: nat,
    index: Seq<Record>,
) -> (steps: nat)
    requires
        canonical(index),
    ensures
        ({
            let before = installed(index, requested);
            let end = Machine::start(requested, limit, index).succeed(steps);
            &&& end.stage is Finished
            &&& end.index.len() == if limit <= complete_count(before) {
                limit
            } else {
                complete_count(before)
            }
            &&& forall|k: int|
                0 <= k < end.index.len() ==> {
                    let r = #[trigger] end.index[k];
                    r.complete() && presence(before, r.id) == r
                }
            &&& forall|k: int, i: int|
                #![trigger end.index[k], before[i]]
                0 <= k < end.index.len() && 0 <= i < before.len() && before[i].complete() && !kept(
                    before,
                    i,
                    limit,
                ) ==> above(end.index[k].id, before[i].id) && end.index[k].id.version
                    >= before[i].id.version
        }),
{
    let steps = law_successful_run(requested, limit, index);
    lemma_installed(index, requested);
    law_retention_keeps_the_highest(installed(index, requested), limit);
    steps
}

/// Running twice changes nothing: where every action succeeds, a second
/// run with the same generations and the same limit, started on what the
/// first run left, leaves the same files.
pub proof fn law_run_twice(requested: Seq<Identifier>, limit: nat, index: Seq<Record>) -> (steps: (
    nat,
    nat,
))
    requires
        canonical(index),
    ensures
        ({
            let first = Machine::start(requested, limit, index).succeed(steps.0);
            let second = Machine::start(requested, limit, first.index).succeed(steps.1);
            &&& first.stage is Finished
            &&& second.stage is Finished
            &&& second.fault is None
            &&& second.index == first.index
        }),
{
    let a = law_successful_run(requested, limit, index);
    let first = Machine::start(requested, limit, index).succeed(a);
    let b = law_successful_run(requested, limit, first.index);
    law_second_run_changes_nothing(index, requested, limit);
    (a, b)
}

} // verus!
