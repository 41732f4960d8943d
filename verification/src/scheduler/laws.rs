//! What holds of a round.

use crate::scheduler::{outcome, outcomes, remaining, round, shard_index, ScheduledTask};
use vstd::multiset::Multiset;
use vstd::prelude::*;

pub mod operations;

verus! {

/// A session whose time has not come remains as often as it was there.
proof fn lemma_future_remains<S, F: Fn(&S, u64) -> Option<u64>>(
    seen: Seq<ScheduledTask<S>>,
    now_ms: u64,
    tick: F,
    nexts: Seq<Option<u64>>,
    task: ScheduledTask<S>,
)
    requires
        outcomes(seen, now_ms, tick, nexts),
        task.deadline_ms > now_ms,
    ensures
        remaining(seen, nexts).to_multiset().count(task) >= seen.to_multiset().count(task),
    decreases seen.len(),
{
    broadcast use vstd::seq_lib::group_to_multiset_ensures;

    if seen.len() > 0 {
        let last = seen.len() - 1;
        let rest = seen.drop_last();
        let rest_nexts = nexts.drop_last();
        assert(outcomes(rest, now_ms, tick, rest_nexts)) by {
            assert forall|i: int| 0 <= i < rest.len() implies #[trigger] outcome(
                rest[i],
                now_ms,
                tick,
                rest_nexts[i],
            ) by {
                assert(outcome(seen[i], now_ms, tick, nexts[i]));
            }
        }
        lemma_future_remains(rest, now_ms, tick, rest_nexts, task);
        assert(outcome(seen[last], now_ms, tick, nexts[last]));
        assert(rest.push(seen[last]) =~= seen);
    }
}

/// What is to be driven again was there before.
proof fn lemma_remaining_is_no_more<S>(seen: Seq<ScheduledTask<S>>, nexts: Seq<Option<u64>>)
    requires
        seen.len() == nexts.len(),
    ensures
        remaining(seen, nexts).len() <= seen.len(),
    decreases seen.len(),
{
    if seen.len() > 0 {
        lemma_remaining_is_no_more(seen.drop_last(), nexts.drop_last());
    }
}

/// A session that is not over remains, with its new time.
proof fn lemma_not_over_remains<S>(
    seen: Seq<ScheduledTask<S>>,
    nexts: Seq<Option<u64>>,
    i: int,
)
    requires
        seen.len() == nexts.len(),
        0 <= i < seen.len(),
        nexts[i] is Some,
    ensures
        remaining(seen, nexts).contains(
            ScheduledTask { session: seen[i].session, deadline_ms: nexts[i]->0 },
        ),
    decreases seen.len(),
{
    let task = ScheduledTask { session: seen[i].session, deadline_ms: nexts[i]->0 };
    let all = remaining(seen, nexts);
    if i == seen.len() - 1 {
        assert(all[all.len() - 1] == task);
    } else {
        let rest = remaining(seen.drop_last(), nexts.drop_last());
        lemma_not_over_remains(seen.drop_last(), nexts.drop_last(), i);
        let j = choose|j: int| 0 <= j < rest.len() && rest[j] == task;
        assert(all[j] == task);
    }
}

/// A session whose time has not come is left alone.
pub proof fn law_future_sessions_are_left_alone<S, F: Fn(&S, u64) -> Option<u64>>(
    before: Multiset<ScheduledTask<S>>,
    now_ms: u64,
    tick: F,
    after: Multiset<ScheduledTask<S>>,
    task: ScheduledTask<S>,
)
    requires
        round(before, now_ms, tick, after),
        task.deadline_ms > now_ms,
    ensures
        after.count(task) >= before.count(task),
{
    let (seen, nexts) = choose|seen: Seq<ScheduledTask<S>>, nexts: Seq<Option<u64>>|
        seen.to_multiset() == before && #[trigger] outcomes(seen, now_ms, tick, nexts) && after
            == remaining(seen, nexts).to_multiset();
    lemma_future_remains(seen, now_ms, tick, nexts, task);
}

/// A session whose time has come is driven, and unless it is over it stays, with the time
/// that it asked for.
pub proof fn law_due_sessions_are_driven<S, F: Fn(&S, u64) -> Option<u64>>(
    before: Multiset<ScheduledTask<S>>,
    now_ms: u64,
    tick: F,
    after: Multiset<ScheduledTask<S>>,
    task: ScheduledTask<S>,
)
    requires
        round(before, now_ms, tick, after),
        before.count(task) > 0,
        task.deadline_ms <= now_ms,
    ensures
        exists|next: Option<u64>| #[trigger]
            call_ensures(tick, (&task.session, now_ms), next) && (next is Some ==> after.count(
                ScheduledTask { session: task.session, deadline_ms: next->0 },
            ) > 0),
{
    broadcast use vstd::seq_lib::group_to_multiset_ensures;

    let (seen, nexts) = choose|seen: Seq<ScheduledTask<S>>, nexts: Seq<Option<u64>>|
        seen.to_multiset() == before && #[trigger] outcomes(seen, now_ms, tick, nexts) && after
            == remaining(seen, nexts).to_multiset();
    assert(seen.contains(task));
    let i = choose|i: int| 0 <= i < seen.len() && seen[i] == task;
    assert(outcome(seen[i], now_ms, tick, nexts[i]));
    assert(call_ensures(tick, (&task.session, now_ms), nexts[i]));
    if nexts[i] is Some {
        lemma_not_over_remains(seen, nexts, i);
    }
}

/// A round drops sessions and never makes any.
pub proof fn law_round_makes_no_sessions<S, F: Fn(&S, u64) -> Option<u64>>(
    before: Multiset<ScheduledTask<S>>,
    now_ms: u64,
    tick: F,
    after: Multiset<ScheduledTask<S>>,
)
    requires
        round(before, now_ms, tick, after),
    ensures
        after.len() <= before.len(),
{
    broadcast use vstd::seq_lib::group_to_multiset_ensures;

    let (seen, nexts) = choose|seen: Seq<ScheduledTask<S>>, nexts: Seq<Option<u64>>|
        seen.to_multiset() == before && #[trigger] outcomes(seen, now_ms, tick, nexts) && after
            == remaining(seen, nexts).to_multiset();
    lemma_remaining_is_no_more(seen, nexts);
}

/// Where a session that remains comes from.
proof fn lemma_remaining_was_there<S>(
    seen: Seq<ScheduledTask<S>>,
    nexts: Seq<Option<u64>>,
    task: ScheduledTask<S>,
) -> (i: int)
    requires
        seen.len() == nexts.len(),
        remaining(seen, nexts).contains(task),
    ensures
        0 <= i < seen.len(),
        seen[i].session == task.session,
        nexts[i] == Some(task.deadline_ms),
    decreases seen.len(),
{
    let all = remaining(seen, nexts);
    let rest = remaining(seen.drop_last(), nexts.drop_last());
    let j = choose|j: int| 0 <= j < all.len() && all[j] == task;
    if nexts.last() is Some && j == all.len() - 1 {
        seen.len() - 1
    } else {
        assert(rest[j] == task);
        lemma_remaining_was_there(seen.drop_last(), nexts.drop_last(), task)
    }
}

/// A session that is there after a round was there before: either its time has not come,
/// and it is as it was, or it was driven and asked for the time that it has now. One that
/// was driven and is over is gone.
pub proof fn law_who_remains_was_there<S, F: Fn(&S, u64) -> Option<u64>>(
    before: Multiset<ScheduledTask<S>>,
    now_ms: u64,
    tick: F,
    after: Multiset<ScheduledTask<S>>,
    task: ScheduledTask<S>,
)
    requires
        round(before, now_ms, tick, after),
        after.count(task) > 0,
    ensures
        exists|earlier: ScheduledTask<S>| #[trigger]
            before.count(earlier) > 0 && earlier.session == task.session && if earlier.deadline_ms
                > now_ms {
                earlier.deadline_ms == task.deadline_ms
            } else {
                call_ensures(tick, (&earlier.session, now_ms), Some(task.deadline_ms))
            },
{
    broadcast use vstd::seq_lib::group_to_multiset_ensures;

    let (seen, nexts) = choose|seen: Seq<ScheduledTask<S>>, nexts: Seq<Option<u64>>|
        seen.to_multiset() == before && #[trigger] outcomes(seen, now_ms, tick, nexts) && after
            == remaining(seen, nexts).to_multiset();
    assert(remaining(seen, nexts).contains(task));
    let i = lemma_remaining_was_there(seen, nexts, task);
    assert(outcome(seen[i], now_ms, tick, nexts[i]));
    assert(seen.contains(seen[i]));
    assert(before.count(seen[i]) > 0);
}

/// If no session whose time has come is over, none is lost in a round.
pub proof fn law_no_session_is_lost<S, F: Fn(&S, u64) -> Option<u64>>(
    before: Multiset<ScheduledTask<S>>,
    now_ms: u64,
    tick: F,
    after: Multiset<ScheduledTask<S>>,
)
    requires
        round(before, now_ms, tick, after),
        forall|task: ScheduledTask<S>|
            before.count(task) > 0 && task.deadline_ms <= now_ms ==> !(#[trigger] call_ensures(
                tick,
                (&task.session, now_ms),
                None,
            )),
    ensures
        after.len() == before.len(),
{
    broadcast use vstd::seq_lib::group_to_multiset_ensures;

    let (seen, nexts) = choose|seen: Seq<ScheduledTask<S>>, nexts: Seq<Option<u64>>|
        seen.to_multiset() == before && #[trigger] outcomes(seen, now_ms, tick, nexts) && after
            == remaining(seen, nexts).to_multiset();
    assert forall|i: int| 0 <= i < seen.len() implies (#[trigger] nexts[i]) is Some by {
        assert(outcome(seen[i], now_ms, tick, nexts[i]));
        assert(seen.contains(seen[i]));
        if nexts[i] is None {
            assert(call_ensures(tick, (&seen[i].session, now_ms), None));
        }
    }
    lemma_all_remain(seen, nexts);
}

/// Where every session is to be driven again, as many remain.
proof fn lemma_all_remain<S>(seen: Seq<ScheduledTask<S>>, nexts: Seq<Option<u64>>)
    requires
        seen.len() == nexts.len(),
        forall|i: int| 0 <= i < seen.len() ==> (#[trigger] nexts[i]) is Some,
    ensures
        remaining(seen, nexts).len() == seen.len(),
    decreases seen.len(),
{
    if seen.len() > 0 {
        assert(nexts[nexts.len() - 1] is Some);
        assert forall|i: int| 0 <= i < seen.drop_last().len() implies (
        #[trigger] nexts.drop_last()[i]) is Some by {
            assert(nexts[i] is Some);
        }
        lemma_all_remain(seen.drop_last(), nexts.drop_last());
    }
}

/// Workers take turns: any sessions in a row, no more of them than there are workers, go to
/// different ones, and as many sessions later it is the same worker's turn again.
pub proof fn law_workers_take_turns(
    ticket: usize,
    index: usize,
    later_ticket: usize,
    later_index: usize,
    shards: usize,
)
    requires
        shards > 0,
        ticket <= later_ticket,
        call_ensures(shard_index, (ticket, shards), index),
        call_ensures(shard_index, (later_ticket, shards), later_index),
    ensures
        index < shards,
        ticket < later_ticket < ticket + shards ==> index != later_index,
        later_ticket == ticket + shards ==> index == later_index,
        ticket == 0 ==> index == 0,
{
    let n = shards as int;
    vstd::arithmetic::div_mod::lemma_fundamental_div_mod(ticket as int, n);
    vstd::arithmetic::div_mod::lemma_fundamental_div_mod(later_ticket as int, n);
    if ticket < later_ticket < ticket + shards && index == later_index {
        let a = ticket as int / n;
        let b = later_ticket as int / n;
        assert(false) by (nonlinear_arith)
            requires
                ticket == n * a + index,
                later_ticket == n * b + index,
                0 < later_ticket - ticket < n,
                n > 0,
        ;
    }
    if later_ticket == ticket + shards {
        vstd::arithmetic::div_mod::lemma_mod_add_multiples_vanish(ticket as int, n);
    }
}

} // verus!
