//! What holds of messages and fragments.

use crate::error::{io_error_kind, ErrorKind};
use crate::link::{
    fragment_count, fragments_of, head_count, head_message, joined, lemma_message_is_taken, peek,
    reports_post, Fragment, LinkState, Posted,
};
use vstd::prelude::*;

verus! {

/// Joining two runs of fragments joins the bytes.
pub proof fn lemma_joined_concat(first: Seq<Fragment>, second: Seq<Fragment>)
    ensures
        joined(first + second) == joined(first) + joined(second),
    decreases second.len(),
{
    let both = first + second;
    if second.len() == 0 {
        assert(both =~= first);
        assert(joined(first) + joined(second) =~= joined(first));
    } else {
        assert(both.drop_last() =~= first + second.drop_last());
        assert(both.last() == second.last());
        lemma_joined_concat(first, second.drop_last());
        assert(joined(both) =~= joined(first) + joined(second));
    }
}

/// The number of fragments is just large enough.
proof fn lemma_fragment_count(len: int, mss: int)
    requires
        len >= 0,
        mss > 0,
    ensures
        fragment_count(len, mss) >= 1,
        (fragment_count(len, mss) - 1) * mss <= len <= fragment_count(len, mss) * mss,
        len > 0 ==> (fragment_count(len, mss) - 1) * mss < len,
{
    let count = fragment_count(len, mss);
    if len > mss {
        let q = (len + mss - 1) / mss;
        vstd::arithmetic::div_mod::lemma_fundamental_div_mod(len + mss - 1, mss);
        vstd::arithmetic::div_mod::lemma_mod_bound(len + mss - 1, mss);
        assert(q * mss == mss * q) by (nonlinear_arith);
        assert((q - 1) * mss == q * mss - mss) by (nonlinear_arith);
        assert(q >= 1) by (nonlinear_arith)
            requires
                q * mss > len - 1,
                len > mss,
                mss > 0,
        ;
    } else {
        assert(count == 1);
        assert(0 * mss == 0);
        assert(1 * mss == mss);
    }
}

/// The first `k` fragments hold the first `k * mss` bytes.
proof fn lemma_fragments_join_upto(data: Seq<u8>, mss: int, stream: bool, k: int)
    requires
        mss > 0,
        0 <= k <= fragment_count(data.len() as int, mss),
    ensures
        joined(fragments_of(data, mss, stream).take(k)) == data.take(
            if k * mss < data.len() {
                k * mss
            } else {
                data.len() as int
            },
        ),
    decreases k,
{
    let fragments = fragments_of(data, mss, stream);
    if k == 0 {
        assert(0 * mss == 0);
        assert(fragments.take(0).len() == 0);
        assert(data.take(0) =~= Seq::<u8>::empty());
    } else {
        lemma_fragments_join_upto(data, mss, stream, k - 1);
        lemma_fragment_count(data.len() as int, mss);
        assert((k - 1) * mss <= data.len()) by (nonlinear_arith)
            requires
                k <= fragment_count(data.len() as int, mss),
                (fragment_count(data.len() as int, mss) - 1) * mss <= data.len(),
                mss > 0,
        ;
        assert((k - 1) * mss + mss == k * mss) by (nonlinear_arith);
        assert(0 <= (k - 1) * mss) by (nonlinear_arith)
            requires
                k >= 1,
                mss > 0,
        ;
        assert((k - 1 + 1) * mss == k * mss);
        assert(fragments.take(k).drop_last() =~= fragments.take(k - 1));
        assert(fragments.take(k).last() == fragments[k - 1]);
        let end = if k * mss < data.len() {
            k * mss
        } else {
            data.len() as int
        };
        assert(data.take((k - 1) * mss) + data.subrange((k - 1) * mss, end) =~= data.take(end));
    }
}

/// The fragments of `data`, joined, are `data`.
pub proof fn lemma_fragments_join(data: Seq<u8>, mss: int, stream: bool)
    requires
        mss > 0,
    ensures
        joined(fragments_of(data, mss, stream)) == data,
{
    let count = fragment_count(data.len() as int, mss);
    lemma_fragment_count(data.len() as int, mss);
    lemma_fragments_join_upto(data, mss, stream, count);
    assert(fragments_of(data, mss, stream).take(count) =~= fragments_of(data, mss, stream));
    assert(data.take(data.len() as int) =~= data);
}

/// Sending keeps every byte: what is waiting to be sent is what was waiting before,
/// followed by the bytes that were handed in.
pub proof fn law_sending_keeps_the_bytes(before: LinkState, data: Seq<u8>)
    requires
        before.mss > 0,
        before.send(data).1 is Ok,
    ensures
        joined(before.send(data).0.queue) == joined(before.queue) + data,
        before.send(data).1->Ok_0 == data.len(),
{
    let room = before.tail_room();
    let taken = if data.len() < room {
        data.len() as int
    } else {
        room
    };
    let filled = before.extended(data.take(taken));
    let rest = data.skip(taken);
    assert(data.take(taken) + rest =~= data);
    if room > 0 {
        assert(filled.queue.drop_last() =~= before.queue.drop_last());
        assert(joined(filled.queue) =~= joined(before.queue) + data.take(taken));
    } else {
        assert(joined(filled.queue) =~= joined(before.queue) + data.take(taken));
    }
    if before.stream && rest.len() == 0 {
        assert(data.take(taken) =~= data);
    } else {
        lemma_fragments_join(rest, before.mss as int, before.stream);
        lemma_joined_concat(filled.queue, fragments_of(rest, before.mss as int, before.stream));
        assert(joined(before.queue) + data.take(taken) + rest =~= joined(before.queue) + data);
    }
}

/// The first message in a run of fragments whose numbers count down to 0 is all of them.
proof fn lemma_counting_down_is_one_message(fragments: Seq<Fragment>, more: Seq<Fragment>)
    requires
        fragments.len() > 0,
        forall|i: int|
            0 <= i < fragments.len() ==> (#[trigger] fragments[i]).0 == fragments.len() - i - 1,
    ensures
        head_count(fragments + more) == fragments.len(),
    decreases fragments.len(),
{
    let all = fragments + more;
    assert(all[0] == fragments[0]);
    if fragments.len() > 1 {
        let rest = fragments.drop_first();
        assert forall|i: int| 0 <= i < rest.len() implies (#[trigger] rest[i]).0 == rest.len() - i
            - 1 by {
            assert(rest[i] == fragments[i + 1]);
        }
        assert(all.drop_first() =~= rest + more);
        lemma_counting_down_is_one_message(rest, more);
    }
}

/// What is sent as one message is read as one message: once all its fragments have come
/// in, in order and in front of whatever came in behind them, the first message is the
/// one that was sent.
pub proof fn law_message_is_put_together_again(
    before: LinkState,
    data: Seq<u8>,
    more: Seq<Fragment>,
)
    requires
        before.mss > 0,
        !before.stream,
        before.send(data).1 is Ok,
    ensures
        ({
            let fragments = before.send(data).0.queue.skip(before.queue.len() as int);
            let received = fragments + more;
            &&& head_message(received) == data
            &&& head_count(received) == fragments.len()
            &&& peek(received) == Ok::<nat, crate::error::KcpError>(data.len())
        }),
{
    let mss = before.mss as int;
    let sent = fragments_of(data, mss, false);
    let count = fragment_count(data.len() as int, mss);
    assert(data.skip(0) =~= data);
    let fragments = before.send(data).0.queue.skip(before.queue.len() as int);
    assert(fragments =~= sent);
    lemma_fragment_count(data.len() as int, mss);
    assert(count < 128);
    lemma_counting_down_is_one_message(sent, more);
    lemma_fragments_join(data, mss, false);
    assert((sent + more).take(sent.len() as int) =~= sent);
    assert((sent + more)[0] == sent[0]);
}

/// Bytes that are sent in stream mode are read in order: the fragments that are
/// waiting, joined, are the bytes that were handed in, whatever messages they came in.
pub proof fn law_stream_keeps_the_order(before: LinkState, first: Seq<u8>, second: Seq<u8>)
    requires
        before.mss > 0,
        before.stream,
        before.send(first).1 is Ok,
        before.send(first).0.send(second).1 is Ok,
    ensures
        joined(before.send(first).0.send(second).0.queue) == joined(before.queue) + first + second,
{
    law_sending_keeps_the_bytes(before, first);
    law_sending_keeps_the_bytes(before.send(first).0, second);
}

/// In two goes, too, sending keeps every byte.
pub proof fn lemma_sending_all_keeps_the_bytes(before: LinkState, data: Seq<u8>)
    requires
        before.mss > 0,
        data.len() <= before.one_go() + before.mss,
    ensures
        joined(before.send_all(data).queue) == joined(before.queue) + data,
{
    let cut = before.one_go();
    if data.len() > cut {
        let (first, second) = (data.take(cut), data.skip(cut));
        let mid = before.send(first).0;
        lemma_message_is_taken(before, first);
        law_sending_keeps_the_bytes(before, first);
        lemma_message_is_taken(mid, second);
        law_sending_keeps_the_bytes(mid, second);
        assert(first + second =~= data);
        assert(joined(before.queue) + first + second =~= joined(before.queue) + data);
    } else {
        lemma_message_is_taken(before, data);
        law_sending_keeps_the_bytes(before, data);
    }
}

/// What is cut into at most `count` fragments is no longer than as many fragments hold.
proof fn lemma_fragments_hold(len: int, mss: int, count: int)
    requires
        0 <= len,
        mss > 0,
        fragment_count(len, mss) <= count,
    ensures
        len <= count * mss,
{
    lemma_fragment_count(len, mss);
    assert(fragment_count(len, mss) * mss <= count * mss) by (nonlinear_arith)
        requires
            fragment_count(len, mss) <= count,
            mss > 0,
    ;
}

/// Bytes that fill `count - 1` fragments and part of another are cut into `count`.
proof fn lemma_fragments_needed(len: int, mss: int, count: int)
    requires
        mss > 0,
        count >= 2,
        (count - 1) * mss < len <= count * mss,
    ensures
        fragment_count(len, mss) == count,
{
    lemma_fragment_count(len, mss);
    let found = fragment_count(len, mss);
    assert(found <= count) by (nonlinear_arith)
        requires
            (found - 1) * mss < len,
            len <= count * mss,
            mss > 0,
    ;
    assert(found >= count) by (nonlinear_arith)
        requires
            (count - 1) * mss < len,
            len <= found * mss,
            mss > 0,
    ;
}

/// Where fragment number `i` of at least `count` full ones lies.
proof fn lemma_fragment_place(i: int, count: int, mss: int)
    requires
        0 <= i < count,
        mss > 0,
    ensures
        0 <= i * mss,
        i * mss + mss == (i + 1) * mss,
        (i + 1) * mss <= count * mss,
{
    assert(0 <= i * mss) by (nonlinear_arith)
        requires
            0 <= i,
            mss > 0,
    ;
    assert(i * mss + mss == (i + 1) * mss) by (nonlinear_arith);
    assert((i + 1) * mss <= count * mss) by (nonlinear_arith)
        requires
            i + 1 <= count,
            mss > 0,
    ;
}

/// KCP takes no more in one go than `one_go` and what the last unsent fragment has room
/// for.
pub proof fn lemma_taken_in_one_go(before: LinkState, data: Seq<u8>)
    requires
        before.mss > 0,
        before.send(data).1 is Ok,
    ensures
        data.len() <= before.one_go() + before.tail_room(),
        before.tail_room() <= before.mss,
        !before.stream ==> before.tail_room() == 0,
{
    let room = before.tail_room();
    let taken = if data.len() < room {
        data.len() as int
    } else {
        room
    };
    let rest = data.skip(taken);
    if !(before.stream && rest.len() == 0) {
        lemma_fragments_hold(rest.len() as int, before.mss as int, 127);
    }
}

/// Two goes come to the same as one: bytes that KCP takes in one go are queued alike if
/// they are handed in in two.
pub proof fn law_two_goes_are_as_one(before: LinkState, data: Seq<u8>)
    requires
        before.mss > 0,
        before.send(data).1 is Ok,
    ensures
        before.send_all(data) == before.send(data).0,
{
    let cut = before.one_go();
    let mss = before.mss as int;
    lemma_taken_in_one_go(before, data);
    if data.len() > cut {
        let room = before.tail_room();
        let (first, second) = (data.take(cut), data.skip(cut));
        let mid = before.send(first).0;
        lemma_message_is_taken(before, first);
        assert(0 < second.len() <= room <= mss);
        let filled = before.extended(data.take(room));
        assert(first.take(room) =~= data.take(room));
        let rest_first = first.skip(room);
        let rest = data.skip(room);
        assert(rest =~= rest_first + second);
        let parts = fragments_of(rest_first, mss, true);
        let all = fragments_of(rest, mss, true);
        assert(126 * mss + mss == 127 * mss);
        assert(125 * mss + mss == 126 * mss);
        lemma_fragments_needed(rest.len() as int, mss, 127);
        assert(mid.queue == filled.queue + parts);
        if room < mss {
            lemma_fragments_needed(rest_first.len() as int, mss, 127);
            assert(parts[126].1 =~= rest_first.subrange(126 * mss, rest_first.len() as int));
            assert(mid.queue.last() == parts[126]);
            assert(mid.tail_room() == room);
            assert(second.take(second.len() as int) =~= second);
            let after = mid.send(second).0;
            assert(after.queue =~= filled.queue + all) by {
                assert(all[126].1 =~= parts[126].1 + second);
                assert forall|i: int| 0 <= i < 126 implies all[i] == parts[i] by {
                    lemma_fragment_place(i, 126, mss);
                    assert(all[i].1 =~= parts[i].1);
                }
            }
        } else {
            lemma_fragments_needed(rest_first.len() as int, mss, 126);
            assert(parts[125].1 =~= rest_first.subrange(125 * mss, 126 * mss));
            assert(mid.queue.last() == parts[125]);
            assert(mid.tail_room() == 0);
            assert(second.skip(0) =~= second);
            let after = mid.send(second).0;
            let last = fragments_of(second, mss, true);
            assert(last[0].1 =~= second);
            assert(after.queue =~= filled.queue + all) by {
                assert(all[126].1 =~= second);
                assert forall|i: int| 0 <= i < 126 implies all[i] == parts[i] by {
                    lemma_fragment_place(i, 126, mss);
                    assert(all[i].1 =~= parts[i].1);
                }
            }
        }
    }
}

/// Only a channel that nobody reads fails a packet: one that has no room drops it, and that
/// counts as written.
pub proof fn law_full_channel_is_no_failure(
    posted: Posted,
    len: nat,
    res: std::io::Result<usize>,
)
    requires
        reports_post(posted, len, res),
    ensures
        posted == Posted::Sent || posted == Posted::Full ==> res is Ok && res->Ok_0 == len,
        posted == Posted::Closed ==> res is Err && io_error_kind(res->Err_0)
            == ErrorKind::BrokenPipe,
{
}

} // verus!
