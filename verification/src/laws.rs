//! What holds of every run of the offline-write connection.

use crate::bootstrap::{
    all_guarded, insert_or_ignore, says_done, select_all, table_info, FLAG_QUERY, MARK_DONE,
    SCHEMA_QUERY, TABLES_QUERY,
};
use crate::connectivity::{probe_address, EndpointCaches, CACHE_WINDOW_MS};
use crate::model::{
    at_endpoint, begin_replay, blank, finished, lemma_step_wf, next_schema, next_table, noted,
    once_known, probe, queued, reach, replay_request, replayed, request_of, start_asking,
    start_bootstrap, start_query, start_write, step, sync_message, wf, write_outcome, Call,
    ConnectionView, FlowView, Stage, OFFLINE,
};
use crate::pending::{PendingOperationView, NOT_PERSISTED};
use crate::protocol::{Clock, OutcomeView, ReplyView, RequestView, Store};
use crate::query_params::{ParameterSetView, QueryValueView};
use vstd::prelude::*;

verus! {

/// The state after a run: the replies of `replies` taken in order, each
/// with the time of its step.
pub open spec fn run(f: FlowView, c: ConnectionView, replies: Seq<(ReplyView, Clock)>) -> (
    FlowView,
    ConnectionView,
)
    decreases replies.len(),
{
    if replies.len() == 0 {
        (f, c)
    } else {
        let next = step(f, c, replies[0].0, replies[0].1);
        run(next.0, next.1, replies.skip(1))
    }
}

/// A call that is over stays over, whatever is handed to it.
pub proof fn lemma_finished_stays(
    f: FlowView,
    c: ConnectionView,
    replies: Seq<(ReplyView, Clock)>,
)
    requires
        f.stage == Stage::Finished,
    ensures
        run(f, c, replies) == (f, c),
    decreases replies.len(),
{
    if replies.len() > 0 {
        lemma_finished_stays(f, c, replies.skip(1));
    }
}

/// How many steps a replay takes at most from the state `f`: two for every
/// operation that is left, the replay and the removal of its row.
pub open spec fn replay_steps(f: FlowView) -> nat {
    match f.stage {
        Stage::Replay => (2 * (f.drained.len() - f.cursor)) as nat,
        Stage::Remove => (2 * (f.drained.len() - f.cursor) - 1) as nat,
        _ => 0,
    }
}

/// What a call comes to at the end of a replay that confirmed `synced`
/// operations and left `remaining` in the queue.
pub open spec fn replay_outcome(f: FlowView, synced: nat, remaining: nat) -> OutcomeView {
    match f.call {
        Call::SyncPending => OutcomeView::Synced(synced),
        Call::ManualSync => OutcomeView::Message(sync_message(synced, remaining)),
        _ => write_outcome(f),
    }
}

/// A replay comes to its end whatever the remote store answers, and no
/// operation is lost in it: each one taken from the queue is either
/// confirmed or back in the queue, behind what the queue held.
pub proof fn lemma_replay_ends(f: FlowView, c: ConnectionView, replies: Seq<(ReplyView, Clock)>)
    requires
        wf(f),
        f.stage == Stage::Replay || f.stage == Stage::Remove,
        replies.len() >= replay_steps(f),
    ensures
        ({
            let end = run(f, c, replies);
            &&& end.0.stage == Stage::Finished
            &&& end.1 == (ConnectionView { pending: end.1.pending, ..c })
            &&& c.pending.is_prefix_of(end.1.pending)
            &&& end.0.synced >= f.synced
            &&& end.0.synced + (end.1.pending.len() - c.pending.len()) == f.drained.len()
            &&& end.0.outcome == replay_outcome(f, end.0.synced, end.1.pending.len())
        }),
    decreases replies.len(),
{
    let next = step(f, c, replies[0].0, replies[0].1);
    lemma_step_wf(f, c, replies[0].0, replies[0].1);
    if next.0.stage == Stage::Finished {
        lemma_finished_stays(next.0, next.1, replies.skip(1));
    } else {
        lemma_replay_ends(next.0, next.1, replies.skip(1));
    }
}

/// The operations whose replay fails in a run, in the order in which they
/// are replayed.
pub open spec fn failures(
    f: FlowView,
    c: ConnectionView,
    replies: Seq<(ReplyView, Clock)>,
) -> Seq<PendingOperationView>
    decreases replies.len(),
{
    if replies.len() == 0 {
        Seq::empty()
    } else {
        let next = step(f, c, replies[0].0, replies[0].1);
        let rest = failures(next.0, next.1, replies.skip(1));
        if f.stage == Stage::Replay && !replayed(f.drained[f.cursor as int], replies[0].0) {
            seq![f.drained[f.cursor as int]] + rest
        } else {
            rest
        }
    }
}

proof fn lemma_no_failures_when_finished(
    f: FlowView,
    c: ConnectionView,
    replies: Seq<(ReplyView, Clock)>,
)
    requires
        f.stage == Stage::Finished,
    ensures
        failures(f, c, replies) == Seq::<PendingOperationView>::empty(),
    decreases replies.len(),
{
    if replies.len() > 0 {
        lemma_no_failures_when_finished(f, c, replies.skip(1));
    }
}

/// What a replay leaves in the queue: what the queue held when the replay
/// ended, and behind it the operations whose replay failed, in the order
/// in which they had been queued.
pub proof fn lemma_replay_leaves_failures(
    f: FlowView,
    c: ConnectionView,
    replies: Seq<(ReplyView, Clock)>,
)
    requires
        wf(f),
        f.stage == Stage::Replay || f.stage == Stage::Remove,
        replies.len() >= replay_steps(f),
    ensures
        run(f, c, replies).1.pending == c.pending + f.failed + failures(f, c, replies),
    decreases replies.len(),
{
    let next = step(f, c, replies[0].0, replies[0].1);
    let rest = replies.skip(1);
    lemma_step_wf(f, c, replies[0].0, replies[0].1);
    let op = f.drained[f.cursor as int];
    let failed_now = f.stage == Stage::Replay && !replayed(op, replies[0].0);
    let failed_after = if failed_now {
        f.failed.push(op)
    } else {
        f.failed
    };
    if next.0.stage == Stage::Finished {
        lemma_finished_stays(next.0, next.1, rest);
        lemma_no_failures_when_finished(next.0, next.1, rest);
        assert(next.1.pending == c.pending + failed_after);
    } else {
        lemma_replay_leaves_failures(next.0, next.1, rest);
        assert(next.0.failed == failed_after);
        assert(next.1 == c);
    }
    let tail = failures(next.0, next.1, rest);
    if failed_now {
        assert(c.pending + f.failed.push(op) + tail =~= c.pending + f.failed + (seq![op] + tail));
    }
    assert(c.pending + failed_after + Seq::<PendingOperationView>::empty() =~= c.pending
        + failed_after);
}

/// Once a write is queued and it is known whether the remote store is in
/// reach, the call comes to the outcome of the write whatever happens
/// after, and the queue does not grow any more.
proof fn lemma_write_once_known(
    f: FlowView,
    c: ConnectionView,
    online: bool,
    replies: Seq<(ReplyView, Clock)>,
)
    requires
        f.call == Call::Execute || f.call == Call::ExecuteBatch,
        replies.len() >= 2 * c.pending.len(),
    ensures
        ({
            let start = once_known(f, c, online);
            let end = run(start.0, start.1, replies);
            &&& end.0.stage == Stage::Finished
            &&& end.0.outcome == write_outcome(f)
            &&& end.1.pending.len() <= c.pending.len()
            &&& !online ==> end.1 == c
        }),
{
    let start = once_known(f, c, online);
    if start.0.stage == Stage::Finished {
        lemma_finished_stays(start.0, start.1, replies);
    } else {
        lemma_replay_ends(start.0, start.1, replies);
    }
}

/// How many replies bring a write to its end at the latest, once the local
/// store has taken it.
pub open spec fn write_steps(c: ConnectionView) -> nat {
    2 * c.pending.len() + 4
}

/// A write is durable. A statement that the local store has executed,
/// changing `n` rows, is reported to the caller as executed with `n` rows, whatever the
/// host answers afterwards: writing the log may fail, the remote store may
/// be out of reach or refuse every replay. The statement went to the local
/// store with the caller's parameters, and the queue ends at most one
/// longer.
pub proof fn lemma_durability(
    c: ConnectionView,
    sql: Seq<char>,
    params: ParameterSetView,
    n: u64,
    at: Clock,
    replies: Seq<(ReplyView, Clock)>,
)
    requires
        replies.len() >= write_steps(c),
    ensures
        ({
            let start = start_write(Call::Execute, sql, params);
            let taken = step(start, c, ReplyView::Affected(n), at);
            let end = run(taken.0, taken.1, replies);
            &&& request_of(start, c) == RequestView::Execute { store: Store::Local, sql, params }
            &&& end.0.stage == Stage::Finished
            &&& end.0.outcome == OutcomeView::Affected(n)
            &&& end.1.pending.len() <= c.pending.len() + 1
        }),
{
    let start = start_write(Call::Execute, sql, params);
    let taken = step(start, c, ReplyView::Affected(n), at);
    lemma_written(taken.0, taken.1, replies);
}

/// A batch is durable as a statement is: one that the local store has
/// executed is reported as executed, whatever the host answers afterwards.
pub proof fn lemma_batch_durability(
    c: ConnectionView,
    sql: Seq<char>,
    at: Clock,
    replies: Seq<(ReplyView, Clock)>,
)
    requires
        replies.len() >= write_steps(c),
    ensures
        ({
            let start = start_write(Call::ExecuteBatch, sql, ParameterSetView::Absent);
            let taken = step(start, c, ReplyView::Done, at);
            let end = run(taken.0, taken.1, replies);
            &&& request_of(start, c) == RequestView::ExecuteBatch { store: Store::Local, sql }
            &&& end.0.stage == Stage::Finished
            &&& end.0.outcome == OutcomeView::Executed(true)
            &&& end.1.pending.len() <= c.pending.len() + 1
        }),
{
    let start = start_write(Call::ExecuteBatch, sql, ParameterSetView::Absent);
    let taken = step(start, c, ReplyView::Done, at);
    lemma_written(taken.0, taken.1, replies);
}

proof fn lemma_written(f: FlowView, c: ConnectionView, replies: Seq<(ReplyView, Clock)>)
    requires
        f.call == Call::Execute || f.call == Call::ExecuteBatch,
        f.stage == Stage::Persist,
        replies.len() >= write_steps(c),
    ensures
        ({
            let end = run(f, c, replies);
            &&& end.0.stage == Stage::Finished
            &&& end.0.outcome == write_outcome(f)
            &&& end.1.pending.len() <= c.pending.len() + 1
        }),
{
    let now = replies[0].1.monotonic_ms;
    let id = match replies[0].0 {
        ReplyView::RowId(id) => id,
        _ => NOT_PERSISTED,
    };
    let c1 = ConnectionView { pending: c.pending.push(queued(f, Some(id))), ..c };
    let persisted = step(f, c, replies[0].0, replies[0].1);
    assert(persisted == reach(f, c1, now));
    let rest = replies.skip(1);
    assert(run(f, c, replies) == run(persisted.0, persisted.1, rest));
    if persisted.0.stage == Stage::Probe {
        assert(persisted.1 == c1);
        let online = rest[0].0 == ReplyView::Reachable(true);
        let c2 = noted(c1, rest[0].1.monotonic_ms, online);
        let probed = step(persisted.0, persisted.1, rest[0].0, rest[0].1);
        assert(probed == once_known(persisted.0, c2, online));
        assert(run(persisted.0, persisted.1, rest) == run(probed.0, probed.1, rest.skip(1)));
        lemma_write_once_known(persisted.0, c2, online, rest.skip(1));
    } else {
        match c1.cache.fresh(now) {
            Some(online) => {
                lemma_write_once_known(f, c1, online, rest);
            },
            None => {
                lemma_write_once_known(f, noted(c1, now, false), false, rest);
            },
        }
    }
}

/// A write that the local store refuses is reported as failed, with the
/// store's message, and nothing is queued.
pub proof fn lemma_refused_write_queues_nothing(
    c: ConnectionView,
    call: Call,
    sql: Seq<char>,
    params: ParameterSetView,
    message: Seq<char>,
    at: Clock,
)
    requires
        call == Call::Execute || call == Call::ExecuteBatch,
    ensures
        ({
            let start = start_write(call, sql, params);
            step(start, c, ReplyView::Failed(message), at) == (
                finished(start, OutcomeView::Error(message)),
                c,
            )
        }),
{
}

/// A sync never lets the queue grow. A call to replay the queue comes to
/// its end whatever the host answers, and never leaves the queue longer.
/// Where it reports `k` operations replayed, the queue is shorter by `k`;
/// where it reports that the remote store is out of reach, the queue is
/// what it was.
pub proof fn lemma_sync_never_grows_queue(
    c: ConnectionView,
    now: u64,
    replies: Seq<(ReplyView, Clock)>,
)
    requires
        replies.len() >= 2 * c.pending.len() + 1,
    ensures
        ({
            let start = start_asking(Call::SyncPending, c, now);
            let end = run(start.0, start.1, replies);
            &&& end.0.stage == Stage::Finished
            &&& end.1.pending.len() <= c.pending.len()
            &&& end.0.outcome matches OutcomeView::Synced(k) ==> k + end.1.pending.len()
                == c.pending.len()
            &&& end.0.outcome is Synced || end.0.outcome == OutcomeView::Error(OFFLINE@)
            &&& end.0.outcome is Error ==> end.1.pending == c.pending
        }),
{
    let f = blank(Call::SyncPending);
    let start = start_asking(Call::SyncPending, c, now);
    if start.0.stage == Stage::Probe {
        let online = replies[0].0 == ReplyView::Reachable(true);
        let c2 = noted(c, replies[0].1.monotonic_ms, online);
        let probed = step(start.0, start.1, replies[0].0, replies[0].1);
        assert(probed == once_known(start.0, c2, online));
        assert(run(start.0, start.1, replies) == run(probed.0, probed.1, replies.skip(1)));
        lemma_sync_once_known(start.0, c2, online, replies.skip(1));
    } else {
        match c.cache.fresh(now) {
            Some(online) => {
                lemma_sync_once_known(f, c, online, replies);
            },
            None => {
                lemma_sync_once_known(f, noted(c, now, false), false, replies);
            },
        }
    }
}

proof fn lemma_sync_once_known(
    f: FlowView,
    c: ConnectionView,
    online: bool,
    replies: Seq<(ReplyView, Clock)>,
)
    requires
        f.call == Call::SyncPending,
        replies.len() >= 2 * c.pending.len(),
    ensures
        ({
            let start = once_known(f, c, online);
            let end = run(start.0, start.1, replies);
            &&& end.0.stage == Stage::Finished
            &&& end.1.pending.len() <= c.pending.len()
            &&& end.0.outcome matches OutcomeView::Synced(k) ==> k + end.1.pending.len()
                == c.pending.len()
            &&& end.0.outcome is Synced || end.0.outcome == OutcomeView::Error(OFFLINE@)
            &&& end.0.outcome is Error ==> end.1.pending == c.pending
            &&& online ==> end.0.outcome is Synced
        }),
{
    let start = once_known(f, c, online);
    if start.0.stage == Stage::Finished {
        lemma_finished_stays(start.0, start.1, replies);
        if online {
            assert(c.pending.len() == 0);
            assert(start.1.pending =~= c.pending);
        }
    } else {
        lemma_replay_ends(start.0, start.1, replies);
    }
}

/// A call that only asks where the remote store stands, or which store to
/// use, leaves the queue as it is.
pub proof fn lemma_asking_leaves_queue(
    f: FlowView,
    c: ConnectionView,
    now: u64,
    reply: ReplyView,
    at: Clock,
)
    requires
        f.call == Call::Query || f.call == Call::IsOnline || f.call == Call::CheckConnectivity
            || f.call == Call::Metadata || f.call == Call::Reset,
    ensures
        reach(f, c, now).1.pending == c.pending,
        probe(f, c, now).1.pending == c.pending,
        f.stage == Stage::Probe ==> step(f, c, reply, at).1.pending == c.pending && step(
            f,
            c,
            reply,
            at,
        ).0.stage == Stage::Finished,
{
}

/// How many operations are neither confirmed nor lost: those in the queue,
/// and those that a replay under way has taken from it.
pub open spec fn outstanding(f: FlowView, c: ConnectionView) -> nat {
    if f.stage == Stage::Replay || f.stage == Stage::Remove {
        (c.pending.len() + f.failed.len() + (f.drained.len() - f.cursor)) as nat
    } else {
        c.pending.len()
    }
}

/// The queue changes only by writes and replays. The operations
/// outstanding become one more where a write that the local store has taken is queued, and one
/// less where a replay is confirmed; no other step changes their number.
/// Reading the log, when a connection is set up, is no such step: it fills
/// the queue.
pub proof fn lemma_queue_changes_only_by_writes_and_replays(
    f: FlowView,
    c: ConnectionView,
    reply: ReplyView,
    at: Clock,
)
    requires
        wf(f),
        f.stage != Stage::LoadPending,
    ensures
        ({
            let next = step(f, c, reply, at);
            let confirmed = f.stage == Stage::Remove || (f.stage == Stage::Replay && replayed(
                f.drained[f.cursor as int],
                reply,
            ) && f.drained[f.cursor as int].id is None);
            outstanding(next.0, next.1) == if f.stage == Stage::Persist {
                outstanding(f, c) + 1
            } else if confirmed {
                (outstanding(f, c) - 1) as nat
            } else {
                outstanding(f, c)
            }
        }),
{
    let now = at.monotonic_ms;
    match f.stage {
        Stage::Persist => {
            let id = match reply {
                ReplyView::RowId(id) => id,
                _ => NOT_PERSISTED,
            };
            lemma_asking_keeps_outstanding(
                f,
                ConnectionView { pending: c.pending.push(queued(f, Some(id))), ..c },
                now,
                false,
            );
        },
        Stage::Probe => {
            let online = reply == ReplyView::Reachable(true);
            lemma_asking_keeps_outstanding(f, noted(c, now, online), now, online);
        },
        Stage::Replay | Stage::Remove => {},
        Stage::Finished
        | Stage::OpenLocal
        | Stage::CreatePendingTable
        | Stage::CreateMetadataTable
        | Stage::OpenRemote
        | Stage::FirstProbe => {},
        _ => {
            lemma_asking_keeps_outstanding(f, c, now, false);
        },
    }
}

proof fn lemma_asking_keeps_outstanding(f: FlowView, c: ConnectionView, now: u64, online: bool)
    requires
        f.stage != Stage::Replay,
        f.stage != Stage::Remove,
    ensures
        outstanding(once_known(f, c, online).0, once_known(f, c, online).1) == c.pending.len(),
        outstanding(probe(f, c, now).0, probe(f, c, now).1) == c.pending.len(),
        outstanding(reach(f, c, now).0, reach(f, c, now).1) == c.pending.len(),
{
    let begun = begin_replay(f, c);
    assert(outstanding(begun.0, begun.1) == c.pending.len()) by {
        assert((c.pending + Seq::<PendingOperationView>::empty()).len() == c.pending.len());
    }
    assert(outstanding(once_known(f, c, online).0, once_known(f, c, online).1)
        == c.pending.len());
    let quiet = noted(c, now, false);
    let begun_quiet = begin_replay(f, quiet);
    assert(outstanding(once_known(f, quiet, false).0, once_known(f, quiet, false).1)
        == c.pending.len());
    match c.cache.fresh(now) {
        Some(b) => {
            assert(outstanding(once_known(f, c, b).0, once_known(f, c, b).1) == c.pending.len());
        },
        None => {},
    }
}

/// Every reply to a replay in the run says that the replay succeeded.
pub open spec fn all_replayed(
    f: FlowView,
    c: ConnectionView,
    replies: Seq<(ReplyView, Clock)>,
) -> bool
    decreases replies.len(),
{
    replies.len() > 0 ==> {
        let next = step(f, c, replies[0].0, replies[0].1);
        &&& f.stage == Stage::Replay ==> replayed(f.drained[f.cursor as int], replies[0].0)
        &&& all_replayed(next.0, next.1, replies.skip(1))
    }
}

/// The requests to replay an operation that a run makes, in their order.
pub open spec fn replays(
    f: FlowView,
    c: ConnectionView,
    replies: Seq<(ReplyView, Clock)>,
) -> Seq<RequestView>
    decreases replies.len(),
{
    if replies.len() == 0 {
        Seq::empty()
    } else {
        let next = step(f, c, replies[0].0, replies[0].1);
        let rest = replays(next.0, next.1, replies.skip(1));
        if f.stage == Stage::Replay {
            seq![request_of(f, c)] + rest
        } else {
            rest
        }
    }
}

/// The requests that replay the operations of `ops` from position `from`
/// on, in order.
pub open spec fn replay_requests(ops: Seq<PendingOperationView>, from: int) -> Seq<RequestView> {
    Seq::new((ops.len() - from) as nat, |i: int| replay_request(ops[from + i]))
}

/// The position of the next operation that `f` asks to replay.
pub open spec fn next_to_replay(f: FlowView) -> int {
    if f.stage == Stage::Remove {
        (f.cursor + 1) as int
    } else {
        f.cursor as int
    }
}

proof fn lemma_replays_when_finished(
    f: FlowView,
    c: ConnectionView,
    replies: Seq<(ReplyView, Clock)>,
)
    requires
        f.stage == Stage::Finished,
    ensures
        replays(f, c, replies) == Seq::<RequestView>::empty(),
    decreases replies.len(),
{
    if replies.len() > 0 {
        lemma_replays_when_finished(f, c, replies.skip(1));
    }
}

/// A replay sends every operation once, whatever becomes of it. From any
/// point of a replay, the requests to replay are those for the operations
/// that were left, one for each, in the order of the queue and as they
/// were queued: an operation that fails is not sent again in the same
/// replay, and one that succeeds is not sent a second time.
pub proof fn lemma_replay_sends_each_once(
    f: FlowView,
    c: ConnectionView,
    replies: Seq<(ReplyView, Clock)>,
)
    requires
        wf(f),
        f.stage == Stage::Replay || f.stage == Stage::Remove,
        replies.len() >= replay_steps(f),
    ensures
        replays(f, c, replies) == replay_requests(f.drained, next_to_replay(f)),
    decreases replies.len(),
{
    let next = step(f, c, replies[0].0, replies[0].1);
    let rest = replies.skip(1);
    lemma_step_wf(f, c, replies[0].0, replies[0].1);
    if next.0.stage == Stage::Finished {
        lemma_replays_when_finished(next.0, next.1, rest);
        if f.stage == Stage::Replay {
            assert(replays(f, c, replies) =~= replay_requests(f.drained, f.cursor as int));
        } else {
            assert(replays(f, c, replies) =~= replay_requests(f.drained, (f.cursor + 1) as int));
        }
    } else {
        lemma_replay_sends_each_once(next.0, next.1, rest);
        let tail = replay_requests(f.drained, next_to_replay(next.0));
        if f.stage == Stage::Replay {
            assert(seq![request_of(f, c)] + tail =~= replay_requests(f.drained, f.cursor as int));
        }
    }
}

/// A sync sends every operation of the queue once. Where the remote store
/// is known to be in reach, the requests to replay are those for the
/// operations of the queue, one for each and in its order, whichever of
/// them succeed.
pub proof fn lemma_sync_sends_each_once(
    c: ConnectionView,
    now: u64,
    replies: Seq<(ReplyView, Clock)>,
)
    requires
        c.cache.fresh(now) == Some(true),
        replies.len() >= 2 * c.pending.len(),
    ensures
        ({
            let start = start_asking(Call::SyncPending, c, now);
            replays(start.0, start.1, replies) == replay_requests(c.pending, 0)
        }),
{
    let start = start_asking(Call::SyncPending, c, now);
    if start.0.stage == Stage::Finished {
        lemma_replays_when_finished(start.0, start.1, replies);
        assert(replay_requests(c.pending, 0) =~= Seq::<RequestView>::empty());
    } else {
        lemma_replay_sends_each_once(start.0, start.1, replies);
    }
}

/// A replay that succeeds throughout replays everything, from any point
/// of it. Where every replay succeeds, every operation that was left is replayed, in the order of the
/// queue and as it was queued, all of them are confirmed and none goes back
/// to the queue.
pub proof fn lemma_replay_correct(f: FlowView, c: ConnectionView, replies: Seq<(ReplyView, Clock)>)
    requires
        wf(f),
        f.stage == Stage::Replay || f.stage == Stage::Remove,
        f.failed.len() == 0,
        replies.len() >= replay_steps(f),
        all_replayed(f, c, replies),
    ensures
        ({
            let end = run(f, c, replies);
            &&& end.0.stage == Stage::Finished
            &&& end.1 == c
            &&& end.0.synced == f.drained.len()
            &&& replays(f, c, replies) == replay_requests(f.drained, next_to_replay(f))
        }),
    decreases replies.len(),
{
    let next = step(f, c, replies[0].0, replies[0].1);
    let rest = replies.skip(1);
    lemma_step_wf(f, c, replies[0].0, replies[0].1);
    if next.0.stage == Stage::Finished {
        lemma_finished_stays(next.0, next.1, rest);
        lemma_replays_when_finished(next.0, next.1, rest);
        assert(next.1.pending =~= c.pending);
        if f.stage == Stage::Replay {
            assert(replays(f, c, replies) =~= replay_requests(f.drained, f.cursor as int));
        } else {
            assert(replays(f, c, replies) =~= replay_requests(f.drained, (f.cursor + 1) as int));
        }
    } else {
        lemma_replay_correct(next.0, next.1, rest);
        let tail = replay_requests(f.drained, next_to_replay(next.0));
        if f.stage == Stage::Replay {
            assert(seq![request_of(f, c)] + tail =~= replay_requests(f.drained, f.cursor as int));
        }
    }
}

/// A sync that succeeds throughout replays the whole queue. A sync that
/// finds the remote store in reach and every replay of which succeeds
/// replays every operation of the queue, in
/// the order of the queue and with the parameters it was queued with,
/// reports as many operations as the queue held, and leaves the queue
/// empty.
pub proof fn lemma_sync_replays_all(
    c: ConnectionView,
    now: u64,
    replies: Seq<(ReplyView, Clock)>,
)
    requires
        c.cache.fresh(now) == Some(true),
        replies.len() >= 2 * c.pending.len(),
        ({
            let start = start_asking(Call::SyncPending, c, now);
            all_replayed(start.0, start.1, replies)
        }),
    ensures
        ({
            let start = start_asking(Call::SyncPending, c, now);
            let end = run(start.0, start.1, replies);
            &&& end.0.stage == Stage::Finished
            &&& end.0.outcome == OutcomeView::Synced(c.pending.len())
            &&& end.1.pending.len() == 0
            &&& replays(start.0, start.1, replies) == replay_requests(c.pending, 0)
        }),
{
    let start = start_asking(Call::SyncPending, c, now);
    if start.0.stage == Stage::Finished {
        lemma_finished_stays(start.0, start.1, replies);
        lemma_replays_when_finished(start.0, start.1, replies);
        assert(start.1.pending =~= Seq::<PendingOperationView>::empty());
        assert(replay_requests(c.pending, 0) =~= Seq::<RequestView>::empty());
    } else {
        lemma_replay_correct(start.0, start.1, replies);
        lemma_replay_ends(start.0, start.1, replies);
    }
}

/// One probe serves a window of the cache. Of two calls that ask whether
/// the remote store is in reach, less than `CACHE_WINDOW_MS` apart, at most one makes a probe: if
/// the first makes one, answered at a time between the two calls, the
/// second takes its answer.
pub proof fn lemma_one_probe_in_window(
    c: ConnectionView,
    first: u64,
    reply: ReplyView,
    answered: Clock,
    second: u64,
)
    requires
        first <= answered.monotonic_ms <= second,
        second - first < CACHE_WINDOW_MS,
    ensures
        ({
            let one = start_asking(Call::IsOnline, c, first);
            let after = if one.0.stage == Stage::Probe {
                step(one.0, one.1, reply, answered)
            } else {
                one
            };
            let two = start_asking(Call::IsOnline, after.1, second);
            &&& after.0.stage == Stage::Finished
            &&& two.0.stage == Stage::Probe ==> one.0.stage != Stage::Probe
            &&& one.0.stage == Stage::Probe ==> two.0.stage == Stage::Finished && two.0.outcome
                == after.0.outcome
        }),
{
}

/// Connections to one remote store share its cache. Of two calls that ask
/// whether the remote store is in reach, less than `CACHE_WINDOW_MS` apart
/// and made on any two connections with the same address of the remote
/// store, at most one makes a probe: the second finds in the caches of the
/// process what the first left there.
pub proof fn lemma_connections_share_a_probe(
    a: ConnectionView,
    b: ConnectionView,
    caches: EndpointCaches,
    asked: EndpointCaches,
    answered_caches: EndpointCaches,
    first: u64,
    reply: ReplyView,
    answered: Clock,
    second: u64,
)
    requires
        a.remote_url == b.remote_url,
        first <= answered.monotonic_ms <= second,
        second - first < CACHE_WINDOW_MS,
        ({
            let one = start_asking(Call::IsOnline, at_endpoint(a, caches), first);
            &&& asked.follows(caches, a.remote_url, one.1.cache)
            &&& answered_caches.follows(
                asked,
                a.remote_url,
                step(one.0, at_endpoint(one.1, asked), reply, answered).1.cache,
            )
        }),
    ensures
        ({
            let one = start_asking(Call::IsOnline, at_endpoint(a, caches), first);
            let after = step(one.0, at_endpoint(one.1, asked), reply, answered);
            let two = start_asking(Call::IsOnline, at_endpoint(b, answered_caches), second);
            &&& after.0.stage == Stage::Finished
            &&& two.0.stage == Stage::Probe ==> one.0.stage != Stage::Probe
            &&& one.0.stage == Stage::Probe ==> two.0.stage == Stage::Finished && two.0.outcome
                == after.0.outcome
        }),
{
    let one = start_asking(Call::IsOnline, at_endpoint(a, caches), first);
    assert(asked.cache_of(a.remote_url) == one.1.cache);
    let after = step(one.0, at_endpoint(one.1, asked), reply, answered);
    assert(answered_caches.cache_of(b.remote_url) == after.1.cache);
}

/// A query is never lost to the remote store being out of reach. One that
/// asks for the remote store does not fail for it: it goes to the local store then, with
/// the statement and the parameters of the caller. It asks the remote store
/// only where the cache or a probe says that it is in reach.
pub proof fn lemma_query_routing(
    c: ConnectionView,
    sql: Seq<char>,
    params: ParameterSetView,
    now: u64,
    reply: ReplyView,
    at: Clock,
)
    ensures
        ({
            let start = start_query(c, sql, params, Some(true), now);
            let end = if start.0.stage == Stage::Probe {
                step(start.0, start.1, reply, at)
            } else {
                start
            };
            let online = match c.cache.fresh(now) {
                Some(b) => b,
                None => probe_address(c.remote_url) is Ok && reply == ReplyView::Reachable(true),
            };
            &&& end.0.stage == Stage::Finished
            &&& end.0.outcome == OutcomeView::Query {
                store: if online {
                    Store::Remote
                } else {
                    Store::Local
                },
                sql,
                params,
            }
            &&& end.1.pending == c.pending
        }),
{
}

/// A query that does not ask for the remote store goes to the local one,
/// and nothing is looked up or probed for it.
pub proof fn lemma_query_defaults_to_local(
    c: ConnectionView,
    sql: Seq<char>,
    params: ParameterSetView,
    force_remote: Option<bool>,
    now: u64,
)
    requires
        force_remote != Some(true),
    ensures
        ({
            let start = start_query(c, sql, params, force_remote, now);
            &&& start.0.stage == Stage::Finished
            &&& start.0.outcome == OutcomeView::Query { store: Store::Local, sql, params }
            &&& start.1 == c
        }),
{
}

/// Whether a stage belongs to the bootstrap.
pub open spec fn in_bootstrap(stage: Stage) -> bool {
    stage == Stage::ReadFlag || stage == Stage::FetchSchemas || stage == Stage::ApplySchema
        || stage == Stage::FetchTables || stage == Stage::FetchRows || stage
        == Stage::FetchColumns || stage == Stage::InsertRow || stage == Stage::MarkDone
}

/// A bootstrap is made once, as far as the library decides it. A bootstrap
/// begins by reading the note in the local store, and where the note says
/// that the copy has been made it asks nothing more of either store: a call
/// for the bootstrap is over, leaving the connection as it was.
pub proof fn lemma_bootstrap_once(c: ConnectionView, values: Seq<Seq<char>>, at: Clock)
    requires
        says_done(values),
    ensures
        ({
            let start = start_bootstrap(Call::InitialSync);
            let end = step(start, c, ReplyView::Texts(values), at);
            &&& request_of(start, c) == RequestView::QueryTexts {
                store: Store::Local,
                sql: FLAG_QUERY@,
                column: 0,
            }
            &&& end == (finished(start, OutcomeView::Bootstrapped), c)
        }),
        forall|call: Call|
            !in_bootstrap(
                (#[trigger] step(start_bootstrap(call), c, ReplyView::Texts(values), at)).0.stage,
            ),
{
    assert forall|call: Call|
        !in_bootstrap(
            (#[trigger] step(start_bootstrap(call), c, ReplyView::Texts(values), at)).0.stage,
        ) by {
        let f = start_bootstrap(call);
        let end = step(f, c, ReplyView::Texts(values), at);
        lemma_leaves_bootstrap(f, c, at.monotonic_ms);
    }
}

/// A call for the bootstrap reports that the local store is a copy only
/// where its last request was for the note: to read it, and it said so, or
/// to write it, and that was done.
pub proof fn lemma_copy_is_noted(f: FlowView, c: ConnectionView, reply: ReplyView, at: Clock)
    requires
        wf(f),
        f.call == Call::InitialSync,
        f.stage != Stage::Finished,
        step(f, c, reply, at).0.stage == Stage::Finished,
        step(f, c, reply, at).0.outcome == OutcomeView::Bootstrapped,
    ensures
        f.stage == Stage::MarkDone && reply is Affected || f.stage == Stage::ReadFlag && (
        reply matches ReplyView::Texts(values) && says_done(values)),
{
}

proof fn lemma_leaves_bootstrap(f: FlowView, c: ConnectionView, now: u64)
    ensures
        !in_bootstrap(reach(f, c, now).0.stage),
{
}

/// A bootstrap that fails while a connection is set up is reported at the
/// end of setting it up. The log is read all the same, so that the
/// connection can be used; the note that the copy has been made is not
/// written, so that the copy is made again when it is next asked for.
pub proof fn lemma_construction_reports_a_failed_bootstrap(
    f: FlowView,
    c: ConnectionView,
    message: Seq<char>,
    at: Clock,
    log: ReplyView,
    then: Clock,
)
    requires
        f.call == Call::Construct,
        in_bootstrap(f.stage),
    ensures
        ({
            let failed = step(f, c, ReplyView::Failed(message), at);
            let end = step(failed.0, failed.1, log, then);
            &&& failed.0.stage == Stage::LoadPending
            &&& failed.1 == c
            &&& request_of(failed.0, failed.1) == RequestView::LoadPending
            &&& end.0.stage == Stage::Finished
            &&& end.0.outcome == OutcomeView::Ready { bootstrap_error: Some(message) }
        }),
{
}

/// A bootstrap that fails at any point is over at that point: the note
/// that the copy has been made is not written, so that the next bootstrap
/// makes the copy again. Only a call for the bootstrap itself reports the
/// failure.
pub proof fn lemma_failed_bootstrap_writes_no_note(
    f: FlowView,
    c: ConnectionView,
    message: Seq<char>,
    at: Clock,
)
    requires
        in_bootstrap(f.stage),
    ensures
        !in_bootstrap(step(f, c, ReplyView::Failed(message), at).0.stage),
        f.call == Call::InitialSync ==> step(f, c, ReplyView::Failed(message), at) == (
            finished(f, OutcomeView::Error(message)),
            c,
        ),
{
    lemma_leaves_bootstrap(f, c, at.monotonic_ms);
}

/// The requests of a run: what the host is asked before each of the
/// replies, in order.
pub open spec fn requests(
    f: FlowView,
    c: ConnectionView,
    replies: Seq<(ReplyView, Clock)>,
) -> Seq<RequestView>
    decreases replies.len(),
{
    if replies.len() == 0 {
        Seq::empty()
    } else {
        let next = step(f, c, replies[0].0, replies[0].1);
        seq![request_of(f, c)] + requests(next.0, next.1, replies.skip(1))
    }
}

/// A run can be taken in two parts: the second part begins where the first
/// ends.
pub proof fn lemma_run_in_parts(
    f: FlowView,
    c: ConnectionView,
    a: Seq<(ReplyView, Clock)>,
    b: Seq<(ReplyView, Clock)>,
)
    ensures
        run(f, c, a + b) == run(run(f, c, a).0, run(f, c, a).1, b),
        requests(f, c, a + b) == requests(f, c, a) + requests(
            run(f, c, a).0,
            run(f, c, a).1,
            b,
        ),
    decreases a.len(),
{
    if a.len() == 0 {
        assert(a + b =~= b);
        assert(requests(f, c, a) + requests(f, c, b) =~= requests(f, c, b));
    } else {
        let next = step(f, c, a[0].0, a[0].1);
        assert((a + b)[0] == a[0]);
        assert((a + b).skip(1) =~= a.skip(1) + b);
        lemma_run_in_parts(next.0, next.1, a.skip(1), b);
        let tail = requests(run(f, c, a).0, run(f, c, a).1, b);
        assert(seq![request_of(f, c)] + (requests(next.0, next.1, a.skip(1)) + tail) =~= (
        seq![request_of(f, c)] + requests(next.0, next.1, a.skip(1))) + tail);
    }
}

/// A run of one reply is one step, and has one request.
pub proof fn lemma_run_of_one(f: FlowView, c: ConnectionView, reply: (ReplyView, Clock))
    ensures
        run(f, c, seq![reply]) == step(f, c, reply.0, reply.1),
        requests(f, c, seq![reply]) == seq![request_of(f, c)],
{
    let one = seq![reply];
    let next = step(f, c, reply.0, reply.1);
    assert(one.skip(1) =~= Seq::<(ReplyView, Clock)>::empty());
    assert(run(next.0, next.1, one.skip(1)) == next);
    assert(requests(next.0, next.1, one.skip(1)) =~= Seq::<RequestView>::empty());
    assert(seq![request_of(f, c)] + Seq::<RequestView>::empty() =~= seq![request_of(f, c)]);
}

/// A table of the remote store: its name, the names of its columns and its
/// rows.
pub struct RemoteTable {
    pub name: Seq<char>,
    pub columns: Seq<Seq<char>>,
    pub rows: Seq<Seq<QueryValueView>>,
}

/// The names of tables, in order.
pub open spec fn table_names(tables: Seq<RemoteTable>) -> Seq<Seq<char>> {
    Seq::new(tables.len(), |i: int| tables[i].name)
}

/// `n` replies that a statement was executed.
pub open spec fn executed(n: nat, at: Clock) -> Seq<(ReplyView, Clock)> {
    Seq::new(n, |i: int| (ReplyView::Affected(1), at))
}

/// The requests to execute the statements of `sqls` on the local store,
/// from position `from` on and in order.
pub open spec fn schema_requests(sqls: Seq<Seq<char>>, from: int) -> Seq<RequestView> {
    Seq::new(
        (sqls.len() - from) as nat,
        |i: int|
            RequestView::Execute {
                store: Store::Local,
                sql: sqls[from + i],
                params: ParameterSetView::Absent,
            },
    )
}

/// The requests to write the rows of `rows` to the local store with the
/// statement `sql`, from position `from` on and in order.
pub open spec fn row_requests(
    sql: Seq<char>,
    rows: Seq<Seq<QueryValueView>>,
    from: int,
) -> Seq<RequestView> {
    Seq::new(
        (rows.len() - from) as nat,
        |i: int|
            RequestView::Execute {
                store: Store::Local,
                sql,
                params: ParameterSetView::Positional(rows[from + i]),
            },
    )
}

/// What the stores answer while a table is copied: the remote store gives
/// its rows, and for a table with rows the names of its columns; the local
/// store takes every row.
pub open spec fn table_replies(t: RemoteTable, at: Clock) -> Seq<(ReplyView, Clock)> {
    if t.rows.len() == 0 {
        seq![(ReplyView::Rows(t.rows), at)]
    } else {
        seq![(ReplyView::Rows(t.rows), at)] + (seq![(ReplyView::Texts(t.columns), at)] + executed(
            t.rows.len(),
            at,
        ))
    }
}

/// The requests that copy a table: for its rows, and where it has rows for
/// its columns and then to write each row, in the order of the rows, unless
/// a row with its key is there.
pub open spec fn table_requests(t: RemoteTable) -> Seq<RequestView> {
    let rows = RequestView::QueryRows { store: Store::Remote, sql: select_all(t.name) };
    let columns = RequestView::QueryTexts {
        store: Store::Remote,
        sql: table_info(t.name),
        column: 1,
    };
    if t.rows.len() == 0 {
        seq![rows]
    } else {
        seq![rows] + (seq![columns] + row_requests(insert_or_ignore(t.name, t.columns), t.rows, 0))
    }
}

/// What the stores answer while the tables from position `k` on are copied
/// and the note is written.
pub open spec fn tables_replies(tables: Seq<RemoteTable>, k: int, at: Clock) -> Seq<
    (ReplyView, Clock),
>
    decreases tables.len() - k,
{
    if k < 0 || k >= tables.len() {
        seq![(ReplyView::Affected(1), at)]
    } else {
        table_replies(tables[k], at) + tables_replies(tables, k + 1, at)
    }
}

/// The requests that copy the tables from position `k` on, in order, and
/// then write the note.
pub open spec fn tables_requests(tables: Seq<RemoteTable>, k: int) -> Seq<RequestView>
    decreases tables.len() - k,
{
    if k < 0 || k >= tables.len() {
        seq![
            RequestView::Execute {
                store: Store::Local,
                sql: MARK_DONE@,
                params: ParameterSetView::Absent,
            },
        ]
    } else {
        table_requests(tables[k]) + tables_requests(tables, k + 1)
    }
}

/// What the stores answer in a bootstrap that makes the whole copy: the
/// note is not there, the remote store gives the statements of its schema
/// and its tables, and the local store takes every statement.
pub open spec fn clone_replies(
    note: Seq<Seq<char>>,
    schema: Seq<Seq<char>>,
    tables: Seq<RemoteTable>,
    at: Clock,
) -> Seq<(ReplyView, Clock)> {
    seq![(ReplyView::Texts(note), at)] + (seq![(ReplyView::Texts(schema), at)] + (executed(
        schema.len(),
        at,
    ) + (seq![(ReplyView::Texts(table_names(tables)), at)] + tables_replies(tables, 0, at))))
}

/// The requests of a bootstrap that makes the whole copy: for the note, for
/// the schema, to execute every statement of the schema with its guard and
/// in the order of the catalog, for the tables, to copy every table with
/// every row, and last of all to write the note.
pub open spec fn clone_requests(schema: Seq<Seq<char>>, tables: Seq<RemoteTable>) -> Seq<
    RequestView,
> {
    let note = RequestView::QueryTexts { store: Store::Local, sql: FLAG_QUERY@, column: 0 };
    let statements = RequestView::QueryTexts {
        store: Store::Remote,
        sql: SCHEMA_QUERY@,
        column: 0,
    };
    let names = RequestView::QueryTexts { store: Store::Remote, sql: TABLES_QUERY@, column: 0 };
    seq![note] + (seq![statements] + (schema_requests(all_guarded(schema), 0) + (seq![names]
        + tables_requests(tables, 0))))
}

proof fn lemma_schema_applied(g: FlowView, c: ConnectionView, at: Clock)
    requires
        g.item <= g.schemas.len(),
    ensures
        ({
            let f = next_schema(g);
            let replies = executed((g.schemas.len() - g.item) as nat, at);
            &&& run(f, c, replies) == (FlowView { stage: Stage::FetchTables, item: 0, ..g }, c)
            &&& requests(f, c, replies) == schema_requests(g.schemas, g.item as int)
        }),
    decreases g.schemas.len() - g.item,
{
    let f = next_schema(g);
    let replies = executed((g.schemas.len() - g.item) as nat, at);
    if g.item == g.schemas.len() {
        assert(requests(f, c, replies) =~= schema_requests(g.schemas, g.item as int));
    } else {
        let g2 = FlowView { item: g.item + 1, ..f };
        let next = step(f, c, replies[0].0, replies[0].1);
        assert(next == (next_schema(g2), c));
        assert(replies.skip(1) =~= executed((g2.schemas.len() - g2.item) as nat, at));
        lemma_schema_applied(g2, c, at);
        assert(seq![request_of(f, c)] + schema_requests(g.schemas, (g.item + 1) as int)
            =~= schema_requests(g.schemas, g.item as int));
    }
}

proof fn lemma_rows_written(f: FlowView, c: ConnectionView, at: Clock)
    requires
        f.stage == Stage::InsertRow,
        f.row < f.rows.len(),
    ensures
        ({
            let replies = executed((f.rows.len() - f.row) as nat, at);
            &&& run(f, c, replies) == (
                next_table(
                    FlowView { item: f.item + 1, row: (f.rows.len() - 1) as nat, ..f },
                ),
                c,
            )
            &&& requests(f, c, replies) == row_requests(f.insert_sql, f.rows, f.row as int)
        }),
    decreases f.rows.len() - f.row,
{
    let replies = executed((f.rows.len() - f.row) as nat, at);
    let next = step(f, c, replies[0].0, replies[0].1);
    if f.row + 1 < f.rows.len() {
        let f2 = FlowView { row: f.row + 1, ..f };
        assert(next == (f2, c));
        assert(replies.skip(1) =~= executed((f2.rows.len() - f2.row) as nat, at));
        lemma_rows_written(f2, c, at);
        assert(seq![request_of(f, c)] + row_requests(f.insert_sql, f.rows, (f.row + 1) as int)
            =~= row_requests(f.insert_sql, f.rows, f.row as int));
    } else {
        assert(replies.skip(1) =~= Seq::<(ReplyView, Clock)>::empty());
        assert(run(next.0, next.1, replies.skip(1)) == next);
        assert(requests(next.0, next.1, replies.skip(1)) =~= Seq::<RequestView>::empty());
        assert(seq![request_of(f, c)] + Seq::<RequestView>::empty() =~= row_requests(
            f.insert_sql,
            f.rows,
            f.row as int,
        ));
    }
}

/// A bootstrap is about to copy the table at position `k` of `tables`, or
/// to write the note where no table is left.
pub open spec fn copying(f: FlowView, tables: Seq<RemoteTable>, k: int) -> bool {
    &&& f.call == Call::InitialSync
    &&& f.tables == table_names(tables)
    &&& f.item == k
    &&& 0 <= k <= tables.len()
    &&& f.stage == if k < tables.len() {
        Stage::FetchRows
    } else {
        Stage::MarkDone
    }
}

proof fn lemma_table_copied(
    f: FlowView,
    c: ConnectionView,
    tables: Seq<RemoteTable>,
    k: int,
    at: Clock,
)
    requires
        copying(f, tables, k),
        k < tables.len(),
    ensures
        ({
            let replies = table_replies(tables[k], at);
            &&& copying(run(f, c, replies).0, tables, k + 1)
            &&& run(f, c, replies).1 == c
            &&& requests(f, c, replies) == table_requests(tables[k])
        }),
{
    let t = tables[k];
    let first = (ReplyView::Rows(t.rows), at);
    assert(f.tables[k] == t.name);
    lemma_run_of_one(f, c, first);
    if t.rows.len() > 0 {
        let second = (ReplyView::Texts(t.columns), at);
        let written = executed(t.rows.len(), at);
        let asked = step(f, c, first.0, first.1);
        let told = step(asked.0, asked.1, second.0, second.1);
        lemma_run_in_parts(f, c, seq![first], seq![second] + written);
        lemma_run_of_one(asked.0, asked.1, second);
        lemma_run_in_parts(asked.0, asked.1, seq![second], written);
        assert(told.0.rows == t.rows);
        assert(written =~= executed((told.0.rows.len() - told.0.row) as nat, at));
        lemma_rows_written(told.0, told.1, at);
    }
}

proof fn lemma_tables_copied(
    f: FlowView,
    c: ConnectionView,
    tables: Seq<RemoteTable>,
    k: int,
    at: Clock,
)
    requires
        copying(f, tables, k),
    ensures
        ({
            let end = run(f, c, tables_replies(tables, k, at));
            &&& end.0.stage == Stage::Finished
            &&& end.0.outcome == OutcomeView::Bootstrapped
            &&& end.1 == c
            &&& requests(f, c, tables_replies(tables, k, at)) == tables_requests(tables, k)
        }),
    decreases tables.len() - k,
{
    if k >= tables.len() {
        lemma_run_of_one(f, c, (ReplyView::Affected(1), at));
    } else {
        let one = table_replies(tables[k], at);
        lemma_table_copied(f, c, tables, k, at);
        lemma_run_in_parts(f, c, one, tables_replies(tables, k + 1, at));
        lemma_tables_copied(run(f, c, one).0, c, tables, k + 1, at);
    }
}

/// A bootstrap that makes the whole copy asks for it in order. Where the
/// note is not there and neither store fails, the requests are: for the
/// note; for the schema; to execute on the local store every statement of
/// the schema, with its guard and in the order of the catalog; for the
/// tables; for every table in turn its rows, its columns and to write
/// every one of its rows; and last of all to write the note. Then the call
/// reports that the local store is a copy.
pub proof fn lemma_clone_in_order(
    c: ConnectionView,
    note: Seq<Seq<char>>,
    schema: Seq<Seq<char>>,
    tables: Seq<RemoteTable>,
    at: Clock,
)
    requires
        !says_done(note),
    ensures
        ({
            let start = start_bootstrap(Call::InitialSync);
            let replies = clone_replies(note, schema, tables, at);
            let end = run(start, c, replies);
            &&& requests(start, c, replies) == clone_requests(schema, tables)
            &&& end.0.stage == Stage::Finished
            &&& end.0.outcome == OutcomeView::Bootstrapped
            &&& end.1 == c
        }),
{
    let start = start_bootstrap(Call::InitialSync);
    let r_note = (ReplyView::Texts(note), at);
    let r_schema = (ReplyView::Texts(schema), at);
    let r_names = (ReplyView::Texts(table_names(tables)), at);
    let applied = executed(schema.len(), at);
    let copied = tables_replies(tables, 0, at);
    let s1 = step(start, c, r_note.0, r_note.1);
    lemma_run_of_one(start, c, r_note);
    lemma_run_in_parts(
        start,
        c,
        seq![r_note],
        seq![r_schema] + (applied + (seq![r_names] + copied)),
    );
    let s2 = step(s1.0, s1.1, r_schema.0, r_schema.1);
    let g = FlowView { schemas: all_guarded(schema), item: 0, ..s1.0 };
    assert(s2 == (next_schema(g), c));
    lemma_run_of_one(s1.0, s1.1, r_schema);
    lemma_run_in_parts(s1.0, s1.1, seq![r_schema], applied + (seq![r_names] + copied));
    assert(applied =~= executed((g.schemas.len() - g.item) as nat, at));
    lemma_schema_applied(g, c, at);
    lemma_run_in_parts(s2.0, s2.1, applied, seq![r_names] + copied);
    let s3 = FlowView { stage: Stage::FetchTables, item: 0, ..g };
    let s4 = step(s3, c, r_names.0, r_names.1);
    lemma_run_of_one(s3, c, r_names);
    lemma_run_in_parts(s3, c, seq![r_names], copied);
    assert(copying(s4.0, tables, 0));
    lemma_tables_copied(s4.0, c, tables, 0, at);
}

} // verus!
