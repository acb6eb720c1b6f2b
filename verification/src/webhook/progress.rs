//! A batch in progress: what holds between two steps of the machine that
//! applies it, and why each step keeps it so.

use crate::config::ConfigView;
use crate::error::ErrorView;
use crate::njalla::types::DnsRecordView;
use crate::webhook::batch::{
    answered, batch_run, lemma_send_all_holds_nothing, op_run, run_later, run_operations,
    send_all, writes_of, Action, OpRun, OperationView, ProviderCallView, ProviderReplyView, Tally,
};
use crate::webhook::plan::allowed_zone_of;
use crate::webhook::types::ChangesView;
use vstd::prelude::*;

verus! {

/// Replies without a failure among the first `n` let the first `n` calls
/// through.
pub(crate) proof fn lemma_send_all_progress(
    calls: Seq<ProviderCallView>,
    replies: Seq<ProviderReplyView>,
    n: int,
)
    requires
        0 <= n <= calls.len(),
        n <= replies.len(),
        forall|i: int| 0 <= i < n ==> (#[trigger] replies[i]).failure() is None,
    ensures
        send_all(calls, replies) == send_all(calls.skip(n), replies.skip(n)).after(calls.take(n)),
    decreases n,
{
    if n == 0 {
        assert(calls.skip(0) =~= calls);
        assert(replies.skip(0) =~= replies);
        assert(calls.take(0) + send_all(calls, replies).calls =~= send_all(calls, replies).calls);
    } else {
        let rest = send_all(calls.skip(1), replies.skip(1));
        assert(replies[0].failure() is None);
        assert(send_all(calls, replies) == rest.after(seq![calls[0]]));
        assert forall|i: int| 0 <= i < n - 1 implies (#[trigger] replies.skip(1)[i]).failure()
            is None by {
            assert(replies.skip(1)[i] == replies[i + 1]);
        }
        lemma_send_all_progress(calls.skip(1), replies.skip(1), n - 1);
        assert(calls.skip(1).skip(n - 1) =~= calls.skip(n));
        assert(replies.skip(1).skip(n - 1) =~= replies.skip(n));
        let tail = send_all(calls.skip(n), replies.skip(n));
        assert(seq![calls[0]] + (calls.skip(1).take(n - 1) + tail.calls) =~= calls.take(n)
            + tail.calls);
    }
}

/// The calls that an operation makes before its writes: the listing of a
/// deletion.
pub open spec fn lead_calls(operation: OperationView, zone: Seq<char>) -> Seq<ProviderCallView> {
    match operation.action {
        Action::Delete => seq![ProviderCallView::ListRecords { zone }],
        Action::Create => Seq::empty(),
    }
}

/// The records that the writes of an operation are made for: those that
/// the first reply to a deletion lists.
pub open spec fn listed_records(operation: OperationView, heard: Seq<ProviderReplyView>) -> Seq<
    DnsRecordView,
> {
    match operation.action {
        Action::Delete => heard[0].records(),
        Action::Create => Seq::empty(),
    }
}

/// Whether none of `replies` reports a failure.
pub open spec fn all_went_well(replies: Seq<ProviderReplyView>) -> bool {
    forall|i: int| 0 <= i < replies.len() ==> (#[trigger] replies[i]).failure() is None
}

/// Whether an operation has `sent` of its `writes` behind it or in
/// flight, the last of them in flight, after the replies `heard`.
pub open spec fn is_writing(
    config: ConfigView,
    operation: OperationView,
    zone: Seq<char>,
    writes: Seq<ProviderCallView>,
    sent: int,
    heard: Seq<ProviderReplyView>,
) -> bool {
    &&& allowed_zone_of(config, operation.endpoint) == Ok::<Seq<char>, ErrorView>(zone)
    &&& 1 <= sent <= writes.len()
    &&& heard.len() == lead_calls(operation, zone).len() + sent - 1
    &&& all_went_well(heard)
    &&& writes == writes_of(config, operation, zone, listed_records(operation, heard))
}

/// An operation whose last write is in flight comes to what the reply to
/// that write makes of it.
pub(crate) proof fn lemma_in_flight(
    config: ConfigView,
    operation: OperationView,
    zone: Seq<char>,
    writes: Seq<ProviderCallView>,
    sent: int,
    heard: Seq<ProviderReplyView>,
    future: Seq<ProviderReplyView>,
)
    requires
        is_writing(config, operation, zone, writes, sent, heard),
    ensures
        op_run(config, operation, heard + future) == answered(
            future,
            send_all(writes.skip(sent), future.skip(1)),
        ).after(lead_calls(operation, zone) + writes.take(sent)),
{
    let all = heard + future;
    let lead = lead_calls(operation, zone);
    let skipped = lead.len() as int;
    let to_writes = all.skip(skipped);
    assert(!config.dry_run);
    lemma_send_all_holds_nothing(writes, to_writes);
    assert(send_all(writes, to_writes).after(lead) == op_run(config, operation, all)) by {
        match operation.action {
            Action::Delete => {
                assert(all[0] == heard[0]);
                assert(all[0].failure() is None);
            },
            Action::Create => {
                assert(to_writes =~= all);
                assert(lead + send_all(writes, to_writes).calls =~= send_all(
                    writes,
                    to_writes,
                ).calls);
            },
        }
    }
    assert forall|i: int| 0 <= i < sent - 1 implies (#[trigger] to_writes[i]).failure()
        is None by {
        assert(to_writes[i] == heard[i + skipped]);
    }
    lemma_send_all_progress(writes, to_writes, sent - 1);
    assert(to_writes.skip(sent - 1) =~= future);
    assert(writes.skip(sent - 1).skip(1) =~= writes.skip(sent));
    assert(writes.skip(sent - 1)[0] == writes[sent - 1]);
    let last = answered(future, send_all(writes.skip(sent), future.skip(1)));
    assert(send_all(writes.skip(sent - 1), future) == last.after(seq![writes[sent - 1]]));
    assert(lead + (writes.take(sent - 1) + (seq![writes[sent - 1]] + last.calls)) =~= (lead
        + writes.take(sent)) + last.calls);
}

/// Whether a batch that has had `replies` and goes on to have `future`
/// comes to what its operation in progress, which has had `heard` of the
/// replies, and the operations `later` come to.
pub open spec fn in_step(
    config: ConfigView,
    changes: ChangesView,
    replies: Seq<ProviderReplyView>,
    later: Seq<OperationView>,
    tally: Tally,
    operation: OperationView,
    heard: Seq<ProviderReplyView>,
    future: Seq<ProviderReplyView>,
) -> bool {
    batch_run(config, changes, replies + future) == run_later(
        config,
        later,
        tally,
        operation,
        op_run(config, operation, heard + future),
        heard + future,
    )
}

/// Whether a batch that has had `replies` and goes on to have `future`
/// comes to what the operations `rest`, none of them begun, come to with
/// `future`.
pub open spec fn between(
    config: ConfigView,
    changes: ChangesView,
    replies: Seq<ProviderReplyView>,
    rest: Seq<OperationView>,
    tally: Tally,
    future: Seq<ProviderReplyView>,
) -> bool {
    batch_run(config, changes, replies + future) == run_operations(config, rest, tally, future)
}

/// An operation that ends with the reply `reply` leaves the batch between
/// two operations.
pub(crate) proof fn lemma_operation_ends(
    config: ConfigView,
    changes: ChangesView,
    replies: Seq<ProviderReplyView>,
    later: Seq<OperationView>,
    tally: Tally,
    operation: OperationView,
    heard: Seq<ProviderReplyView>,
    reply: ProviderReplyView,
    calls: Seq<ProviderCallView>,
    withheld: Seq<ProviderCallView>,
    result: Result<(), ErrorView>,
)
    requires
        forall|f: Seq<ProviderReplyView>| #[trigger]
            in_step(config, changes, replies, later, tally, operation, heard, f),
        calls.len() == heard.len() + 1,
        forall|f: Seq<ProviderReplyView>| #[trigger]
            op_run(config, operation, heard.push(reply) + f) == (OpRun {
                calls,
                withheld,
                result: Some(result),
            }),
    ensures
        forall|f: Seq<ProviderReplyView>| #[trigger]
            between(
                config,
                changes,
                replies.push(reply),
                later,
                tally.record(operation, calls, withheld, result),
                f,
            ),
{
    assert forall|f: Seq<ProviderReplyView>| #[trigger]
        between(
            config,
            changes,
            replies.push(reply),
            later,
            tally.record(operation, calls, withheld, result),
            f,
        ) by {
        let g = seq![reply] + f;
        assert(in_step(config, changes, replies, later, tally, operation, heard, g));
        assert(replies + g =~= replies.push(reply) + f);
        assert(heard + g =~= heard.push(reply) + f);
        assert(op_run(config, operation, heard.push(reply) + f) == (OpRun {
            calls,
            withheld,
            result: Some(result),
        }));
        assert((heard.push(reply) + f).skip(calls.len() as int) =~= f);
    }
}

/// An operation that goes on after the reply `reply` is the operation in
/// progress as before.
pub(crate) proof fn lemma_operation_goes_on(
    config: ConfigView,
    changes: ChangesView,
    replies: Seq<ProviderReplyView>,
    later: Seq<OperationView>,
    tally: Tally,
    operation: OperationView,
    heard: Seq<ProviderReplyView>,
    reply: ProviderReplyView,
)
    requires
        forall|f: Seq<ProviderReplyView>| #[trigger]
            in_step(config, changes, replies, later, tally, operation, heard, f),
    ensures
        forall|f: Seq<ProviderReplyView>| #[trigger]
            in_step(
                config,
                changes,
                replies.push(reply),
                later,
                tally,
                operation,
                heard.push(reply),
                f,
            ),
{
    assert forall|f: Seq<ProviderReplyView>| #[trigger]
        in_step(
            config,
            changes,
            replies.push(reply),
            later,
            tally,
            operation,
            heard.push(reply),
            f,
        ) by {
        let g = seq![reply] + f;
        assert(in_step(config, changes, replies, later, tally, operation, heard, g));
        assert(replies + g =~= replies.push(reply) + f);
        assert(heard + g =~= heard.push(reply) + f);
    }
}

/// An operation that ends without a call leaves the batch between two
/// operations.
pub(crate) proof fn lemma_operation_skipped(
    config: ConfigView,
    changes: ChangesView,
    replies: Seq<ProviderReplyView>,
    rest: Seq<OperationView>,
    tally: Tally,
    withheld: Seq<ProviderCallView>,
    result: Result<(), ErrorView>,
)
    requires
        rest.len() > 0,
        forall|f: Seq<ProviderReplyView>| #[trigger]
            between(config, changes, replies, rest, tally, f),
        forall|f: Seq<ProviderReplyView>| #[trigger]
            op_run(config, rest[0], f) == OpRun::done(result).holding(withheld),
    ensures
        forall|f: Seq<ProviderReplyView>| #[trigger]
            between(
                config,
                changes,
                replies,
                rest.skip(1),
                tally.record(rest[0], Seq::empty(), withheld, result),
                f,
            ),
{
    assert forall|f: Seq<ProviderReplyView>| #[trigger]
        between(
            config,
            changes,
            replies,
            rest.skip(1),
            tally.record(rest[0], Seq::empty(), withheld, result),
            f,
        ) by {
        assert(between(config, changes, replies, rest, tally, f));
        assert(op_run(config, rest[0], f) == OpRun::done(result).holding(withheld));
        assert(f.skip(0) =~= f);
    }
}

/// The first of the operations that are left becomes the operation in
/// progress.
pub(crate) proof fn lemma_operation_begins(
    config: ConfigView,
    changes: ChangesView,
    replies: Seq<ProviderReplyView>,
    rest: Seq<OperationView>,
    tally: Tally,
)
    requires
        rest.len() > 0,
        forall|f: Seq<ProviderReplyView>| #[trigger]
            between(config, changes, replies, rest, tally, f),
    ensures
        forall|f: Seq<ProviderReplyView>| #[trigger]
            in_step(
                config,
                changes,
                replies,
                rest.skip(1),
                tally,
                rest[0],
                Seq::empty(),
                f,
            ),
{
    assert forall|f: Seq<ProviderReplyView>| #[trigger]
        in_step(config, changes, replies, rest.skip(1), tally, rest[0], Seq::empty(), f) by {
        assert(between(config, changes, replies, rest, tally, f));
        assert(Seq::<ProviderReplyView>::empty() + f =~= f);
    }
}

} // verus!
