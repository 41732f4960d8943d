//! What holds of a worker's operations.

use crate::scheduler::laws::{
    law_due_sessions_are_driven, law_future_sessions_are_left_alone, law_who_remains_was_there,
};
use crate::scheduler::{
    default_scheduler_parallel, drain_step, process_tasks, worker_count, worker_done, Received,
    ScheduledTask, ShardCommand,
};
use vstd::prelude::*;

verus! {

/// A round leaves every session alone whose time has not come, drives every other, and
/// keeps it with the time that it asks for unless it is over.
pub proof fn law_round_of_a_worker<S, F: Fn(&S, u64) -> Option<u64>>(
    tasks: &mut Vec<ScheduledTask<S>>,
    now_ms: u64,
    tick: &F,
    task: ScheduledTask<S>,
)
    requires
        call_ensures(process_tasks::<S, F>, (tasks, now_ms, tick), ()),
    ensures
        ({
            let before = old(tasks)@.to_multiset();
            let after = final(tasks)@.to_multiset();
            &&& task.deadline_ms > now_ms ==> after.count(task) >= before.count(task)
            &&& task.deadline_ms <= now_ms && before.count(task) > 0 ==> exists|next: Option<u64>|
             #[trigger]
                call_ensures(*tick, (&task.session, now_ms), next) && (next is Some
                    ==> after.count(
                    ScheduledTask { session: task.session, deadline_ms: next->0 },
                ) > 0)
            &&& after.count(task) > 0 ==> exists|earlier: ScheduledTask<S>| #[trigger]
                before.count(earlier) > 0 && earlier.session == task.session
        }),
{
    let before = old(tasks)@.to_multiset();
    let after = final(tasks)@.to_multiset();
    if task.deadline_ms > now_ms {
        law_future_sessions_are_left_alone(before, now_ms, *tick, after, task);
    } else if before.count(task) > 0 {
        law_due_sessions_are_driven(before, now_ms, *tick, after, task);
    }
    if after.count(task) > 0 {
        law_who_remains_was_there(before, now_ms, *tick, after, task);
    }
}

/// There are two to four workers, as many as can run at a time where that lies between.
pub proof fn law_number_of_workers(available: Option<usize>, parallel: usize, count: usize)
    requires
        call_ensures(default_scheduler_parallel, (available,), parallel),
        call_ensures(worker_count, (parallel,), count),
    ensures
        2 <= count <= 4,
        count == parallel,
        available matches Some(n) ==> (2 <= n <= 4 ==> count == n) && (n > 4 ==> count == 4),
        available is None ==> count == 2,
{
}

/// There is at least one worker, and as many as are asked for.
pub proof fn law_at_least_one_worker(parallel: usize, count: usize)
    requires
        call_ensures(worker_count, (parallel,), count),
    ensures
        count >= 1,
        parallel >= 1 ==> count == parallel,
        parallel == 0 ==> count == 1,
{
}

/// A session that is put in comes behind the others, and draining goes on; it stops with
/// nothing changed when there are no more commands, and tells whether there can be more.
pub proof fn law_draining<S>(
    tasks: &mut Vec<ScheduledTask<S>>,
    received: Received<S>,
    done: Option<bool>,
)
    requires
        call_ensures(drain_step::<S>, (tasks, received), done),
    ensures
        done is None <==> received is Command,
        received matches Received::Command(ShardCommand::Put(task)) ==> final(tasks)@ == old(
            tasks,
        )@.push(task),
        !(received is Command) ==> final(tasks)@ == old(tasks)@,
        done is Some ==> done->0 == (received is Disconnected),
{
}

/// A worker is done only when nobody can put sessions in and none is left.
pub proof fn law_worker_is_done(disconnected: bool, tasks: usize, done: bool)
    requires
        call_ensures(worker_done, (disconnected, tasks), done),
    ensures
        done <==> disconnected && tasks == 0,
{
}

} // verus!
