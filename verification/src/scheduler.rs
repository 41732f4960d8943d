//! Driving many sessions, each at its own time.
//!
//! Sessions are spread over a few workers. A worker wakes up at a fixed pace and drives
//! those of its sessions whose time has come.

use vstd::multiset::Multiset;
use vstd::prelude::*;

pub mod laws;

verus! {

/// The time between two rounds of a worker, in milliseconds.
pub const SESSION_SCHED_RESOLUTION_MS: u64 = 10;

/// A session and when to drive it. The session is held by a handle of type `S`.
#[derive(Debug)]
pub struct ScheduledTask<S> {
    /// The session.
    pub session: S,
    /// When to drive it, in milliseconds.
    pub deadline_ms: u64,
}

/// What a worker is told.
#[derive(Debug)]
pub enum ShardCommand<S> {
    /// Drive this session, too.
    Put(ScheduledTask<S>),
}

/// What a worker finds in its command channel.
#[derive(Debug)]
pub enum Received<S> {
    /// A command.
    Command(ShardCommand<S>),
    /// Nothing at the moment.
    Empty,
    /// Nothing, and nothing will come any more.
    Disconnected,
}

/// How many workers there are on a machine that runs `available` threads at a time; if
/// that is not known, it counts as one.
pub fn default_scheduler_parallel(available: Option<usize>) -> (parallel: usize)
    ensures
        parallel == (match available {
            Some(n) if n >= 4 => 4usize,
            Some(n) if n == 3 => 3usize,
            _ => 2usize,
        }),
{
    let n: usize = match available {
        Some(n) => n,
        None => 1,
    };
    if n < 2 {
        2
    } else if n > 4 {
        4
    } else {
        n
    }
}

/// How many workers are started when `parallel` are asked for: at least one.
pub fn worker_count(parallel: usize) -> (count: usize)
    ensures
        count == (if parallel == 0 {
            1usize
        } else {
            parallel
        }),
{
    if parallel == 0 {
        1
    } else {
        parallel
    }
}

/// The worker that gets the session with number `ticket`: they take turns.
pub fn shard_index(ticket: usize, shards: usize) -> (index: usize)
    requires
        shards > 0,
    ensures
        index == ticket % shards,
        index < shards,
{
    ticket % shards
}

/// Carries out a command.
pub fn apply_command<S>(tasks: &mut Vec<ScheduledTask<S>>, command: ShardCommand<S>)
    ensures
        match command {
            ShardCommand::Put(task) => final(tasks)@ == old(tasks)@.push(task),
        },
{
    match command {
        ShardCommand::Put(task) => tasks.push(task),
    }
}

/// Carries out what was found in the command channel. Returns `None` if the channel is to
/// be looked into again, else whether it is disconnected.
pub fn drain_step<S>(tasks: &mut Vec<ScheduledTask<S>>, received: Received<S>) -> (done: Option<
    bool,
>)
    ensures
        match received {
            Received::Command(ShardCommand::Put(task)) => done is None && final(tasks)@ == old(
                tasks,
            )@.push(task),
            Received::Empty => done == Some(false) && final(tasks)@ == old(tasks)@,
            Received::Disconnected => done == Some(true) && final(tasks)@ == old(tasks)@,
        },
{
    match received {
        Received::Command(command) => {
            apply_command(tasks, command);
            None
        },
        Received::Empty => Some(false),
        Received::Disconnected => Some(true),
    }
}

/// Is a worker done? Only when nothing is left and nothing can come.
pub fn worker_done(disconnected: bool, tasks: usize) -> (done: bool)
    ensures
        done == (disconnected && tasks == 0),
{
    disconnected && tasks == 0
}

/// `tick` can be called on every session.
pub open spec fn can_tick<S, F: Fn(&S, u64) -> Option<u64>>(tick: F, now_ms: u64) -> bool {
    forall|session: &S| #[trigger] call_requires(tick, (session, now_ms))
}

/// `next` is when to drive the session of `task` again, after a round at `now_ms`: a
/// session whose time has not come keeps its time, and of any other `tick` says it.
pub open spec fn outcome<S, F: Fn(&S, u64) -> Option<u64>>(
    task: ScheduledTask<S>,
    now_ms: u64,
    tick: F,
    next: Option<u64>,
) -> bool {
    if task.deadline_ms > now_ms {
        next == Some(task.deadline_ms)
    } else {
        call_ensures(tick, (&task.session, now_ms), next)
    }
}

/// The sessions that are to be driven again, with their new times.
pub open spec fn remaining<S>(
    tasks: Seq<ScheduledTask<S>>,
    nexts: Seq<Option<u64>>,
) -> Seq<ScheduledTask<S>>
    decreases tasks.len(),
{
    if tasks.len() == 0 {
        Seq::empty()
    } else {
        let rest = remaining(tasks.drop_last(), nexts.drop_last());
        match nexts.last() {
            Some(deadline_ms) => rest.push(
                ScheduledTask { session: tasks.last().session, deadline_ms },
            ),
            None => rest,
        }
    }
}

/// `nexts` are outcomes for `tasks`.
pub open spec fn outcomes<S, F: Fn(&S, u64) -> Option<u64>>(
    tasks: Seq<ScheduledTask<S>>,
    now_ms: u64,
    tick: F,
    nexts: Seq<Option<u64>>,
) -> bool {
    &&& nexts.len() == tasks.len()
    &&& forall|i: int|
        0 <= i < tasks.len() ==> #[trigger] outcome(tasks[i], now_ms, tick, nexts[i])
}

/// `after` is what a round at `now_ms` leaves of `before`: each session is looked at
/// exactly once, and those that are not over stay.
pub open spec fn round<S, F: Fn(&S, u64) -> Option<u64>>(
    before: Multiset<ScheduledTask<S>>,
    now_ms: u64,
    tick: F,
    after: Multiset<ScheduledTask<S>>,
) -> bool {
    exists|seen: Seq<ScheduledTask<S>>, nexts: Seq<Option<u64>>|
        seen.to_multiset() == before && #[trigger] outcomes(seen, now_ms, tick, nexts) && after
            == remaining(seen, nexts).to_multiset()
}

/// When the one at place `i` has been seen, too, what is left lies behind it.
proof fn lemma_one_more_seen<A>(seen: Seq<A>, all: Seq<A>, i: int)
    requires
        0 <= i < all.len(),
    ensures
        seen.push(all[i]).to_multiset().add(all.skip(i + 1).to_multiset())
            == seen.to_multiset().add(all.skip(i).to_multiset()),
{
    broadcast use vstd::seq_lib::group_to_multiset_ensures;

    let rest = all.skip(i);
    assert(rest.remove(0) =~= all.skip(i + 1));
    assert(rest.contains(rest[0]));
    assert(rest.to_multiset() =~= all.skip(i + 1).to_multiset().insert(all[i]));
    assert(seen.push(all[i]).to_multiset() =~= seen.to_multiset().insert(all[i]));
    assert(seen.push(all[i]).to_multiset().add(all.skip(i + 1).to_multiset())
        =~= seen.to_multiset().add(rest.to_multiset()));
}

/// A session that is not over remains.
proof fn lemma_one_more_remaining<S>(
    tasks: Seq<ScheduledTask<S>>,
    nexts: Seq<Option<u64>>,
    task: ScheduledTask<S>,
    next: Option<u64>,
)
    requires
        tasks.len() == nexts.len(),
    ensures
        remaining(tasks.push(task), nexts.push(next)) == (match next {
            Some(deadline_ms) => remaining(tasks, nexts).push(
                ScheduledTask { session: task.session, deadline_ms },
            ),
            None => remaining(tasks, nexts),
        }),
{
    assert(tasks.push(task).drop_last() =~= tasks);
    assert(nexts.push(next).drop_last() =~= nexts);
}

/// Moving the last one to the place of one that is taken out loses nothing else.
proof fn lemma_last_in_place<A>(all: Seq<A>, i: int)
    requires
        0 <= i < all.len(),
    ensures
        all.update(i, all.last()).drop_last().skip(i).to_multiset() == all.skip(
            i + 1,
        ).to_multiset(),
{
    broadcast use vstd::seq_lib::group_to_multiset_ensures;

    let moved = all.update(i, all.last()).drop_last().skip(i);
    let rest = all.skip(i + 1);
    if i + 1 == all.len() {
        assert(moved =~= rest);
    } else {
        assert(moved.remove(0) =~= rest.remove(rest.len() - 1));
        assert(moved[0] == rest[rest.len() - 1]);
        assert(moved.contains(moved[0]) && rest.contains(rest[rest.len() - 1]));
        assert(moved.to_multiset() =~= moved.remove(0).to_multiset().insert(moved[0]));
        assert(rest.to_multiset() =~= rest.remove(rest.len() - 1).to_multiset().insert(
            rest[rest.len() - 1],
        ));
    }
}

/// A round: drives the sessions whose time has come, and drops those that are over.
pub fn process_tasks<S, F: Fn(&S, u64) -> Option<u64>>(
    tasks: &mut Vec<ScheduledTask<S>>,
    now_ms: u64,
    tick: &F,
)
    requires
        can_tick(*tick, now_ms),
    ensures
        round(old(tasks)@.to_multiset(), now_ms, *tick, final(tasks)@.to_multiset()),
{
    broadcast use vstd::seq_lib::group_to_multiset_ensures;

    let ghost mut seen: Seq<ScheduledTask<S>> = Seq::empty();
    let ghost mut nexts: Seq<Option<u64>> = Seq::empty();
    let mut idx: usize = 0;
    proof {
        assert(tasks@.take(0) =~= Seq::empty());
        assert(tasks@.skip(0) =~= tasks@);
        assert(seen.to_multiset().add(tasks@.to_multiset()) =~= tasks@.to_multiset());
    }
    while idx < tasks.len()
        invariant
            idx <= tasks.len(),
            can_tick(*tick, now_ms),
            outcomes(seen, now_ms, *tick, nexts),
            seen.to_multiset().add(tasks@.skip(idx as int).to_multiset()) == old(
                tasks,
            )@.to_multiset(),
            remaining(seen, nexts).to_multiset() == tasks@.take(idx as int).to_multiset(),
        decreases tasks.len() - idx,
    {
        let ghost before = tasks@;
        let ghost task = before[idx as int];
        let next: Option<u64> = if tasks[idx].deadline_ms > now_ms {
            Some(tasks[idx].deadline_ms)
        } else {
            tick(&tasks[idx].session, now_ms)
        };
        assert(outcome(task, now_ms, *tick, next));
        proof {
            lemma_one_more_seen(seen, before, idx as int);
            lemma_one_more_remaining(seen, nexts, task, next);
            seen = seen.push(task);
            nexts = nexts.push(next);
            assert(outcomes(seen, now_ms, *tick, nexts));
        }
        match next {
            Some(deadline_ms) => {
                tasks[idx].deadline_ms = deadline_ms;
                assert(tasks@.skip(idx + 1) =~= before.skip(idx + 1));
                let ghost moved = ScheduledTask { session: task.session, deadline_ms };
                assert(tasks@.take(idx + 1) =~= before.take(idx as int).push(moved));
                proof {
                    broadcast use vstd::seq_lib::group_to_multiset_ensures;

                    assert(tasks@.take(idx + 1).to_multiset() =~= before.take(
                        idx as int,
                    ).to_multiset().insert(moved));
                }
                idx += 1;
            },
            None => {
                tasks.swap_remove(idx);
                proof {
                    lemma_last_in_place(before, idx as int);
                }
                assert(tasks@.take(idx as int) =~= before.take(idx as int));
            },
        }
    }
    proof {
        assert(tasks@.skip(idx as int) =~= Seq::empty());
        assert(tasks@.take(idx as int) =~= tasks@);
        assert(seen.to_multiset() =~= old(tasks)@.to_multiset());
    }
}

} // verus!
