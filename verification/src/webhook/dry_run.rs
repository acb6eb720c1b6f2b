//! What a dry run does: it lists, holds every write back, and answers as
//! if the writes had been made.

use crate::config::ConfigView;
use crate::error::ErrorView;
use crate::njalla::types::DnsRecordView;
use crate::webhook::batch::{
    answered, batch_run, lemma_send_all_holds_nothing, op_run, operations_of, planned_writes,
    run_operations, send_all, withheld_of, writes_of, Action, OpRun, OperationView,
    ProviderCallView, ProviderReplyView, Tally,
};
use crate::webhook::plan::allowed_zone_of;
use crate::webhook::types::ChangesView;
use vstd::prelude::*;

verus! {

/// Whether every one of `calls` asks for a listing, which changes
/// nothing.
pub open spec fn only_listings(calls: Seq<ProviderCallView>) -> bool {
    forall|i: int| 0 <= i < calls.len() ==> #[trigger] calls[i] is ListRecords
}

/// In a dry run no call that changes a record is made, whatever the batch
/// and whatever the provider replies.
pub proof fn lemma_dry_run_only_lists(
    config: ConfigView,
    changes: ChangesView,
    replies: Seq<ProviderReplyView>,
)
    requires
        config.dry_run,
    ensures
        only_listings(batch_run(config, changes, replies).calls),
{
    if !changes.is_empty() {
        lemma_dry_operations_only_list(config, operations_of(changes), Tally::start(), replies);
    }
}

/// In a dry run the operations add nothing but listings to the calls.
proof fn lemma_dry_operations_only_list(
    config: ConfigView,
    operations: Seq<OperationView>,
    tally: Tally,
    replies: Seq<ProviderReplyView>,
)
    requires
        config.dry_run,
        only_listings(tally.calls),
    ensures
        only_listings(run_operations(config, operations, tally, replies).calls),
    decreases operations.len(),
{
    if operations.len() > 0 {
        let first = op_run(config, operations[0], replies);
        assert(only_listings(first.calls)) by {
            match allowed_zone_of(config, operations[0].endpoint) {
                Err(_) => {},
                Ok(zone) => {
                    assert(first.calls.len() <= 1);
                },
            }
        }
        assert(only_listings(tally.calls + first.calls));
        match first.result {
            None => {},
            Some(result) => {
                lemma_dry_operations_only_list(
                    config,
                    operations.skip(1),
                    tally.record(operations[0], first.calls, first.withheld, result),
                    replies.skip(first.calls.len() as int),
                );
            },
        }
    }
}

/// The listings among `calls`, in their order.
pub open spec fn listings(calls: Seq<ProviderCallView>) -> Seq<ProviderCallView>
    decreases calls.len(),
{
    if calls.len() == 0 {
        Seq::empty()
    } else if calls[0] is ListRecords {
        seq![calls[0]] + listings(calls.skip(1))
    } else {
        listings(calls.skip(1))
    }
}

/// The calls among `calls` that change a record, in their order.
pub open spec fn writes_among(calls: Seq<ProviderCallView>) -> Seq<ProviderCallView>
    decreases calls.len(),
{
    if calls.len() == 0 {
        Seq::empty()
    } else if calls[0] is ListRecords {
        writes_among(calls.skip(1))
    } else {
        seq![calls[0]] + writes_among(calls.skip(1))
    }
}

/// The replies to the listings among `calls`, in their order, where each
/// of `replies` answers the call at its position.
pub open spec fn listing_replies(
    calls: Seq<ProviderCallView>,
    replies: Seq<ProviderReplyView>,
) -> Seq<ProviderReplyView>
    decreases calls.len(),
{
    if calls.len() == 0 || replies.len() == 0 {
        Seq::empty()
    } else {
        let rest = listing_replies(calls.skip(1), replies.skip(1));
        if calls[0] is ListRecords {
            seq![replies[0]] + rest
        } else {
            rest
        }
    }
}

/// Whether none of `calls` is a listing.
spec fn only_writes(calls: Seq<ProviderCallView>) -> bool {
    forall|i: int| 0 <= i < calls.len() ==> !(#[trigger] calls[i] is ListRecords)
}

/// Whether every call among `calls` that changes a record was answered
/// without a failure, where each of `replies` answers the call at its
/// position.
pub open spec fn writes_went_well(
    calls: Seq<ProviderCallView>,
    replies: Seq<ProviderReplyView>,
) -> bool {
    forall|i: int|
        0 <= i < calls.len() && i < replies.len() && !(#[trigger] calls[i] is ListRecords)
            ==> replies[i].failure() is None
}

/// The settings `config` for a dry run.
pub open spec fn dry_run_of(config: ConfigView) -> ConfigView {
    ConfigView { dry_run: true, ..config }
}

/// A dry run answers as if it had applied the batch.  Take a run that is
/// no dry run, that has come to its end, and in which no call that changes
/// a record failed.  The dry run that is given the same replies to its
/// listings makes those listings and no other call, holds back exactly
/// the writes that the other run made, and gives the same answer.
pub proof fn lemma_dry_run_answers_as_applied(
    config: ConfigView,
    changes: ChangesView,
    replies: Seq<ProviderReplyView>,
)
    requires
        !config.dry_run,
        batch_run(config, changes, replies).outcome is Some,
        writes_went_well(batch_run(config, changes, replies).calls, replies),
    ensures
        ({
            let actual = batch_run(config, changes, replies);
            let dry = batch_run(
                dry_run_of(config),
                changes,
                listing_replies(actual.calls, replies),
            );
            &&& dry.outcome == actual.outcome
            &&& dry.calls == listings(actual.calls)
            &&& dry.withheld == writes_among(actual.calls)
        }),
{
    let start = Tally::start();
    let none = Seq::<ProviderCallView>::empty();
    if changes.is_empty() {
        assert(only_writes(none));
        lemma_writes_have_no_listings(none, replies);
    } else {
        let operations = operations_of(changes);
        let own = own_calls(config, operations, replies);
        lemma_calls_are_own_calls(config, operations, start, replies);
        assert(none + own =~= own);
        lemma_dry_operations_as_applied(config, operations, start, start, replies);
        let heard = listing_replies(own, replies);
        lemma_calls_are_own_calls(dry_run_of(config), operations, start, heard);
        assert(none + listings(own) =~= listings(own));
        assert(none + writes_among(own) =~= writes_among(own));
    }
}

/// A run that is no dry run holds no write back.
pub proof fn lemma_real_run_holds_nothing(
    config: ConfigView,
    changes: ChangesView,
    replies: Seq<ProviderReplyView>,
)
    requires
        !config.dry_run,
    ensures
        batch_run(config, changes, replies).withheld == Seq::<ProviderCallView>::empty(),
{
    if !changes.is_empty() {
        let operations = operations_of(changes);
        lemma_calls_are_own_calls(config, operations, Tally::start(), replies);
        lemma_real_operations_hold_nothing(config, operations, replies);
    }
}

/// The operations of a run that is no dry run hold no write back.
proof fn lemma_real_operations_hold_nothing(
    config: ConfigView,
    operations: Seq<OperationView>,
    replies: Seq<ProviderReplyView>,
)
    requires
        !config.dry_run,
    ensures
        own_withheld(config, operations, replies) == Seq::<ProviderCallView>::empty(),
    decreases operations.len(),
{
    if operations.len() > 0 {
        let first = op_run(config, operations[0], replies);
        assert(first.withheld == Seq::<ProviderCallView>::empty()) by {
            match allowed_zone_of(config, operations[0].endpoint) {
                Err(_) => {},
                Ok(zone) => {
                    lemma_send_all_holds_nothing(
                        writes_of(config, operations[0], zone, replies[0].records()),
                        replies.skip(1),
                    );
                    lemma_send_all_holds_nothing(
                        writes_of(config, operations[0], zone, Seq::empty()),
                        replies,
                    );
                },
            }
        }
        lemma_real_operations_hold_nothing(
            config,
            operations.skip(1),
            replies.skip(first.calls.len() as int),
        );
    }
}

/// The writes that `operations` hold back with `replies`, in order.
spec fn own_withheld(
    config: ConfigView,
    operations: Seq<OperationView>,
    replies: Seq<ProviderReplyView>,
) -> Seq<ProviderCallView>
    decreases operations.len(),
{
    if operations.len() == 0 {
        Seq::empty()
    } else {
        let first = op_run(config, operations[0], replies);
        match first.result {
            None => first.withheld,
            Some(_) => first.withheld + own_withheld(
                config,
                operations.skip(1),
                replies.skip(first.calls.len() as int),
            ),
        }
    }
}

/// The calls that `operations` make with `replies`, in order.
spec fn own_calls(
    config: ConfigView,
    operations: Seq<OperationView>,
    replies: Seq<ProviderReplyView>,
) -> Seq<ProviderCallView>
    decreases operations.len(),
{
    if operations.len() == 0 {
        Seq::empty()
    } else {
        let first = op_run(config, operations[0], replies);
        match first.result {
            None => first.calls,
            Some(_) => first.calls + own_calls(
                config,
                operations.skip(1),
                replies.skip(first.calls.len() as int),
            ),
        }
    }
}

/// The calls of a batch are those that were made before and those that
/// its operations make; and so with the writes that are held back.
proof fn lemma_calls_are_own_calls(
    config: ConfigView,
    operations: Seq<OperationView>,
    tally: Tally,
    replies: Seq<ProviderReplyView>,
)
    ensures
        run_operations(config, operations, tally, replies).calls == tally.calls + own_calls(
            config,
            operations,
            replies,
        ),
        run_operations(config, operations, tally, replies).withheld == tally.withheld
            + own_withheld(config, operations, replies),
    decreases operations.len(),
{
    if operations.len() == 0 {
        assert(tally.calls + Seq::<ProviderCallView>::empty() =~= tally.calls);
        assert(tally.withheld + Seq::<ProviderCallView>::empty() =~= tally.withheld);
    } else {
        let first = op_run(config, operations[0], replies);
        match first.result {
            None => {},
            Some(result) => {
                let left = replies.skip(first.calls.len() as int);
                lemma_calls_are_own_calls(
                    config,
                    operations.skip(1),
                    tally.record(operations[0], first.calls, first.withheld, result),
                    left,
                );
                assert((tally.calls + first.calls) + own_calls(config, operations.skip(1), left)
                    =~= tally.calls + (first.calls + own_calls(
                    config,
                    operations.skip(1),
                    left,
                )));
                assert((tally.withheld + first.withheld) + own_withheld(
                    config,
                    operations.skip(1),
                    left,
                ) =~= tally.withheld + (first.withheld + own_withheld(
                    config,
                    operations.skip(1),
                    left,
                )));
            },
        }
    }
}

/// Calls without a listing among them have no listings and no replies to
/// listings.
proof fn lemma_writes_have_no_listings(
    calls: Seq<ProviderCallView>,
    replies: Seq<ProviderReplyView>,
)
    requires
        only_writes(calls),
    ensures
        listings(calls) == Seq::<ProviderCallView>::empty(),
        listing_replies(calls, replies) == Seq::<ProviderReplyView>::empty(),
        writes_among(calls) == calls,
    decreases calls.len(),
{
    if calls.len() > 0 {
        assert(!(calls[0] is ListRecords));
        assert(only_writes(calls.skip(1))) by {
            assert forall|i: int| 0 <= i < calls.skip(1).len() implies !(#[trigger] calls.skip(
                1,
            )[i] is ListRecords) by {
                assert(calls.skip(1)[i] == calls[i + 1]);
            }
        }
        lemma_writes_have_no_listings(calls.skip(1), replies.skip(1));
        assert(seq![calls[0]] + calls.skip(1) =~= calls);
    } else {
        assert(writes_among(calls) =~= calls);
    }
}

/// The listings and the writes among calls that were made one after the
/// other are those among the first and then those among the rest.
proof fn lemma_selections_add(first: Seq<ProviderCallView>, rest: Seq<ProviderCallView>)
    ensures
        listings(first + rest) == listings(first) + listings(rest),
        writes_among(first + rest) == writes_among(first) + writes_among(rest),
    decreases first.len(),
{
    let none = Seq::<ProviderCallView>::empty();
    if first.len() == 0 {
        assert(first + rest =~= rest);
        assert(none + listings(rest) =~= listings(rest));
        assert(none + writes_among(rest) =~= writes_among(rest));
    } else {
        let all = first + rest;
        assert(all.skip(1) =~= first.skip(1) + rest);
        assert(all[0] == first[0]);
        lemma_selections_add(first.skip(1), rest);
        let head = seq![first[0]];
        assert((head + listings(first.skip(1))) + listings(rest) =~= head + (listings(
            first.skip(1),
        ) + listings(rest)));
        assert((head + writes_among(first.skip(1))) + writes_among(rest) =~= head + (
        writes_among(first.skip(1)) + writes_among(rest)));
    }
}

/// The replies to the listings among calls that were made one after the
/// other are the replies to the listings among the first and then those
/// among the rest.
proof fn lemma_listing_replies_add(
    first: Seq<ProviderCallView>,
    rest: Seq<ProviderCallView>,
    replies: Seq<ProviderReplyView>,
)
    requires
        first.len() <= replies.len(),
    ensures
        listing_replies(first + rest, replies) == listing_replies(first, replies)
            + listing_replies(rest, replies.skip(first.len() as int)),
    decreases first.len(),
{
    if first.len() == 0 {
        assert(first + rest =~= rest);
        assert(replies.skip(0) =~= replies);
        assert(Seq::<ProviderReplyView>::empty() + listing_replies(rest, replies)
            =~= listing_replies(rest, replies));
    } else {
        let all = first + rest;
        assert(all.skip(1) =~= first.skip(1) + rest);
        assert(all[0] == first[0]);
        lemma_listing_replies_add(first.skip(1), rest, replies.skip(1));
        assert(replies.skip(1).skip(first.skip(1).len() as int) =~= replies.skip(
            first.len() as int,
        ));
        let tail = listing_replies(rest, replies.skip(first.len() as int));
        let inner = listing_replies(first.skip(1), replies.skip(1));
        assert((seq![replies[0]] + inner) + tail =~= seq![replies[0]] + (inner + tail));
    }
}

/// Writes that are made one after the other are made in their order; and
/// where none of the replies to them is a failure, they do not fail.
proof fn lemma_writes_that_went_well(
    writes: Seq<ProviderCallView>,
    replies: Seq<ProviderReplyView>,
)
    requires
        send_all(writes, replies).result is Some,
        forall|i: int|
            0 <= i < send_all(writes, replies).calls.len() && i < replies.len()
                ==> (#[trigger] replies[i]).failure() is None,
    ensures
        send_all(writes, replies).result == Some(Ok::<(), ErrorView>(())),
        send_all(writes, replies).calls == writes,
        writes.len() <= replies.len(),
    decreases writes.len(),
{
    if writes.len() > 0 {
        let rest = send_all(writes.skip(1), replies.skip(1));
        let run = send_all(writes, replies);
        assert(replies.len() > 0);
        assert(run.calls.len() >= 1);
        assert(replies[0].failure() is None);
        assert(run == rest.after(seq![writes[0]]));
        assert forall|i: int| 0 <= i < rest.calls.len() && i < replies.skip(1).len() implies (
        #[trigger] replies.skip(1)[i]).failure() is None by {
            assert(replies.skip(1)[i] == replies[i + 1]);
        }
        lemma_writes_that_went_well(writes.skip(1), replies.skip(1));
        assert(seq![writes[0]] + writes.skip(1) =~= writes);
    } else {
        assert(send_all(writes, replies).calls =~= writes);
    }
}

/// A listing and then writes: the listing is the one listing among them,
/// the writes are the writes among them, and the first reply is the one
/// reply to a listing.
proof fn lemma_listing_then_writes(
    listing: ProviderCallView,
    writes: Seq<ProviderCallView>,
    replies: Seq<ProviderReplyView>,
)
    requires
        listing is ListRecords,
        only_writes(writes),
        replies.len() > 0,
    ensures
        listings(seq![listing] + writes) == seq![listing],
        writes_among(seq![listing] + writes) == writes,
        listing_replies(seq![listing] + writes, replies) == seq![replies[0]],
{
    let first = seq![listing];
    let all = first + writes;
    let none = Seq::<ProviderCallView>::empty();
    lemma_writes_have_no_listings(writes, replies.skip(1));
    assert(all.skip(1) =~= writes);
    assert(all[0] == listing);
    assert(listings(all) =~= first);
    assert(writes_among(all) =~= writes);
    assert(listing_replies(all, replies) =~= seq![replies[0]]);
}

/// A creation of a dry run makes no call, holds back the writes of the
/// real creation in which no write failed, and ends as that one ends.
proof fn lemma_dry_creation_as_applied(
    config: ConfigView,
    operation: OperationView,
    zone: Seq<char>,
    replies: Seq<ProviderReplyView>,
    tail: Seq<ProviderReplyView>,
)
    requires
        !config.dry_run,
        operation.action is Create,
        allowed_zone_of(config, operation.endpoint) == Ok::<Seq<char>, ErrorView>(zone),
        op_run(config, operation, replies).result is Some,
        writes_went_well(op_run(config, operation, replies).calls, replies),
    ensures
        ({
            let actual = op_run(config, operation, replies);
            let heard = listing_replies(actual.calls, replies);
            let dry = op_run(dry_run_of(config), operation, heard + tail);
            &&& dry.result == actual.result
            &&& dry.calls == listings(actual.calls)
            &&& dry.withheld == writes_among(actual.calls)
            &&& dry.calls.len() == heard.len()
            &&& actual.calls.len() <= replies.len()
        }),
{
    let actual = op_run(config, operation, replies);
    let rehearsal = dry_run_of(config);
    let writes = planned_writes(operation, zone, Seq::empty());
    assert(allowed_zone_of(rehearsal, operation.endpoint) == Ok::<Seq<char>, ErrorView>(zone));
    lemma_send_all_holds_nothing(writes, replies);
    assert(actual == send_all(writes, replies));
    lemma_planned_writes_are_writes(operation, zone, Seq::empty());
    lemma_calls_are_writes(writes, replies);
    assert forall|i: int| 0 <= i < actual.calls.len() && i < replies.len() implies (
    #[trigger] replies[i]).failure() is None by {
        assert(!(actual.calls[i] is ListRecords));
    }
    lemma_writes_that_went_well(writes, replies);
    lemma_writes_have_no_listings(writes, replies);
    assert(Seq::<ProviderReplyView>::empty() + tail =~= tail);
}

/// What a deletion whose zone is `zone` comes to: its listing, and then
/// what the reply to the listing makes of it.
proof fn lemma_deletion_unfolds(
    config: ConfigView,
    operation: OperationView,
    zone: Seq<char>,
    replies: Seq<ProviderReplyView>,
)
    requires
        operation.action is Delete,
        allowed_zone_of(config, operation.endpoint) == Ok::<Seq<char>, ErrorView>(zone),
    ensures
        op_run(config, operation, replies) == answered(
            replies,
            send_all(
                writes_of(config, operation, zone, replies[0].records()),
                replies.skip(1),
            ).holding(withheld_of(config, operation, zone, replies[0].records())),
        ).after(seq![ProviderCallView::ListRecords { zone }]),
        allowed_zone_of(dry_run_of(config), operation.endpoint) == Ok::<Seq<char>, ErrorView>(
            zone,
        ),
{
}

/// The writes that the real deletion made where none of them failed: all
/// that the listing called for.
proof fn lemma_deletion_that_went_well(
    config: ConfigView,
    operation: OperationView,
    zone: Seq<char>,
    replies: Seq<ProviderReplyView>,
)
    requires
        !config.dry_run,
        operation.action is Delete,
        allowed_zone_of(config, operation.endpoint) == Ok::<Seq<char>, ErrorView>(zone),
        op_run(config, operation, replies).result is Some,
        writes_went_well(op_run(config, operation, replies).calls, replies),
    ensures
        replies.len() > 0,
        replies[0].failure() is Some ==> op_run(config, operation, replies) == (OpRun {
            calls: seq![ProviderCallView::ListRecords { zone }],
            withheld: Seq::empty(),
            result: Some(Err(replies[0].failure()->0)),
        }),
        replies[0].failure() is None ==> op_run(config, operation, replies) == (OpRun {
            calls: seq![ProviderCallView::ListRecords { zone }] + planned_writes(
                operation,
                zone,
                replies[0].records(),
            ),
            withheld: Seq::empty(),
            result: Some(Ok(())),
        }),
        op_run(config, operation, replies).calls.len() <= replies.len(),
{
    lemma_deletion_unfolds(config, operation, zone, replies);
    let actual = op_run(config, operation, replies);
    let listing = ProviderCallView::ListRecords { zone };
    if replies[0].failure() is Some {
        assert(actual.calls =~= seq![listing]);
    } else {
        let writes = planned_writes(operation, zone, replies[0].records());
        let left = replies.skip(1);
        let run = send_all(writes, left);
        lemma_send_all_holds_nothing(writes, left);
        assert(actual == run.after(seq![listing]));
        lemma_calls_are_writes(writes, left);
        lemma_planned_writes_are_writes(operation, zone, replies[0].records());
        assert forall|i: int| 0 <= i < run.calls.len() && i < left.len() implies (
        #[trigger] left[i]).failure() is None by {
                assert(left[i] == replies[i + 1]);
            assert(actual.calls[i + 1] == run.calls[i]);
            assert(run.calls[i] == writes[i]);
            assert(!(actual.calls[i + 1] is ListRecords));
        }
        lemma_writes_that_went_well(writes, left);
    }
}

/// What a deletion of a dry run comes to once its listing is answered:
/// it fails as the listing failed, or it is through with all its writes
/// held back.
proof fn lemma_dry_deletion(
    config: ConfigView,
    operation: OperationView,
    zone: Seq<char>,
    reply: ProviderReplyView,
    tail: Seq<ProviderReplyView>,
)
    requires
        config.dry_run,
        operation.action is Delete,
        allowed_zone_of(config, operation.endpoint) == Ok::<Seq<char>, ErrorView>(zone),
    ensures
        reply.failure() is Some ==> op_run(config, operation, seq![reply] + tail) == (OpRun {
            calls: seq![ProviderCallView::ListRecords { zone }],
            withheld: Seq::empty(),
            result: Some(Err(reply.failure()->0)),
        }),
        reply.failure() is None ==> op_run(config, operation, seq![reply] + tail) == (OpRun {
            calls: seq![ProviderCallView::ListRecords { zone }],
            withheld: planned_writes(operation, zone, reply.records()),
            result: Some(Ok(())),
        }),
{
    let all = seq![reply] + tail;
    assert(all[0] == reply);
    let run = op_run(config, operation, all);
    assert(run.calls =~= seq![ProviderCallView::ListRecords { zone }]);
}

/// A deletion of a dry run makes the listing of the real deletion, holds
/// back the writes of the real deletion in which no write failed, and
/// ends as that one ends.
proof fn lemma_dry_deletion_as_applied(
    config: ConfigView,
    operation: OperationView,
    zone: Seq<char>,
    replies: Seq<ProviderReplyView>,
    tail: Seq<ProviderReplyView>,
)
    requires
        !config.dry_run,
        operation.action is Delete,
        allowed_zone_of(config, operation.endpoint) == Ok::<Seq<char>, ErrorView>(zone),
        op_run(config, operation, replies).result is Some,
        writes_went_well(op_run(config, operation, replies).calls, replies),
    ensures
        ({
            let actual = op_run(config, operation, replies);
            let heard = listing_replies(actual.calls, replies);
            let dry = op_run(dry_run_of(config), operation, heard + tail);
            &&& dry.result == actual.result
            &&& dry.calls == listings(actual.calls)
            &&& dry.withheld == writes_among(actual.calls)
            &&& dry.calls.len() == heard.len()
            &&& actual.calls.len() <= replies.len()
        }),
{
    let listing = ProviderCallView::ListRecords { zone };
    let none = Seq::<ProviderCallView>::empty();
    let writes = planned_writes(operation, zone, replies[0].records());
    let actual = op_run(config, operation, replies);
    let rehearsal = dry_run_of(config);
    lemma_deletion_that_went_well(config, operation, zone, replies);
    assert(allowed_zone_of(rehearsal, operation.endpoint) == Ok::<Seq<char>, ErrorView>(zone));
    lemma_dry_deletion(rehearsal, operation, zone, replies[0], tail);
    lemma_planned_writes_are_writes(operation, zone, replies[0].records());
    if replies[0].failure() is Some {
        lemma_listing_then_writes(listing, none, replies);
        assert(seq![listing] + none =~= seq![listing]);
    } else {
        lemma_listing_then_writes(listing, writes, replies);
    }

}

/// The writes of an operation are no listings.
proof fn lemma_planned_writes_are_writes(
    operation: OperationView,
    zone: Seq<char>,
    live: Seq<DnsRecordView>,
)
    ensures
        only_writes(planned_writes(operation, zone, live)),
        only_writes(Seq::<ProviderCallView>::empty()),
{
}

/// An operation of a dry run that hears the replies to the listings of
/// the real operation, in which no write failed, makes those listings,
/// holds back the writes of the real operation, and ends as it ends.
proof fn lemma_dry_operation_as_applied(
    config: ConfigView,
    operation: OperationView,
    replies: Seq<ProviderReplyView>,
    tail: Seq<ProviderReplyView>,
)
    requires
        !config.dry_run,
        op_run(config, operation, replies).result is Some,
        writes_went_well(op_run(config, operation, replies).calls, replies),
    ensures
        ({
            let actual = op_run(config, operation, replies);
            let heard = listing_replies(actual.calls, replies);
            let dry = op_run(dry_run_of(config), operation, heard + tail);
            &&& dry.result == actual.result
            &&& dry.calls == listings(actual.calls)
            &&& dry.withheld == writes_among(actual.calls)
            &&& dry.calls.len() == heard.len()
            &&& actual.calls.len() <= replies.len()
        }),
{
    match allowed_zone_of(config, operation.endpoint) {
        Err(e) => {
            let none = Seq::<ProviderCallView>::empty();
            assert(allowed_zone_of(dry_run_of(config), operation.endpoint) == Err::<
                Seq<char>,
                ErrorView,
            >(e));
            assert(only_writes(none));
            lemma_writes_have_no_listings(none, replies);
        },
        Ok(zone) => {
            match operation.action {
                Action::Create => lemma_dry_creation_as_applied(
                    config,
                    operation,
                    zone,
                    replies,
                    tail,
                ),
                Action::Delete => lemma_dry_deletion_as_applied(
                    config,
                    operation,
                    zone,
                    replies,
                    tail,
                ),
            }
        },
    }
}

/// The calls that are made of a list of writes are among those writes, at
/// their positions.
proof fn lemma_calls_are_writes(writes: Seq<ProviderCallView>, replies: Seq<ProviderReplyView>)
    ensures
        send_all(writes, replies).calls.len() <= writes.len(),
        forall|i: int|
            0 <= i < send_all(writes, replies).calls.len() ==> (#[trigger] send_all(
                writes,
                replies,
            ).calls[i]) == writes[i],
    decreases writes.len(),
{
    if writes.len() > 0 {
        lemma_calls_are_writes(writes.skip(1), replies.skip(1));
        let rest = send_all(writes.skip(1), replies.skip(1));
        let run = send_all(writes, replies);
        assert forall|i: int| 0 <= i < run.calls.len() implies (#[trigger] run.calls[i])
            == writes[i] by {
            if i > 0 {
                assert(run.calls[i] == rest.calls[i - 1]);
                assert(writes.skip(1)[i - 1] == writes[i]);
            }
        }
    }
}

/// The operations of a dry run that hear the replies to the listings of
/// the real operations, in which no write failed, make those listings,
/// hold back the writes of the real operations, and come to the same
/// answer.
proof fn lemma_dry_operations_as_applied(
    config: ConfigView,
    operations: Seq<OperationView>,
    actual_tally: Tally,
    dry_tally: Tally,
    replies: Seq<ProviderReplyView>,
)
    requires
        !config.dry_run,
        actual_tally.applied == dry_tally.applied,
        actual_tally.errors == dry_tally.errors,
        actual_tally.clean == dry_tally.clean,
        run_operations(config, operations, actual_tally, replies).outcome is Some,
        writes_went_well(own_calls(config, operations, replies), replies),
    ensures
        ({
            let own = own_calls(config, operations, replies);
            let heard = listing_replies(own, replies);
            &&& run_operations(dry_run_of(config), operations, dry_tally, heard).outcome
                == run_operations(config, operations, actual_tally, replies).outcome
            &&& own_calls(dry_run_of(config), operations, heard) == listings(own)
            &&& own_withheld(dry_run_of(config), operations, heard) == writes_among(own)
        }),
    decreases operations.len(),
{
    let own = own_calls(config, operations, replies);
    if operations.len() == 0 {
        assert(listings(own) =~= Seq::<ProviderCallView>::empty());
        assert(writes_among(own) =~= Seq::<ProviderCallView>::empty());
    } else {
        let operation = operations[0];
        let first = op_run(config, operation, replies);
        let result = first.result->0;
        let left = replies.skip(first.calls.len() as int);
        let later = own_calls(config, operations.skip(1), left);
        assert(own == first.calls + later);
        assert(writes_went_well(first.calls, replies)) by {
                assert forall|i: int|
                0 <= i < first.calls.len() && i < replies.len() && !(
                #[trigger] first.calls[i] is ListRecords) implies replies[i].failure()
                is None by {
                assert(own[i] == first.calls[i]);
            }
        }
        let tail = listing_replies(later, left);
        lemma_dry_operation_as_applied(config, operation, replies, tail);
        assert(writes_went_well(later, left)) by {
                assert forall|i: int|
                0 <= i < later.len() && i < left.len() && !(
                #[trigger] later[i] is ListRecords) implies left[i].failure() is None by {
                assert(own[i + first.calls.len()] == later[i]);
                assert(left[i] == replies[i + first.calls.len()]);
            }
        }
        lemma_listing_replies_add(first.calls, later, replies);
        let heard = listing_replies(own, replies);
        let first_heard = listing_replies(first.calls, replies);
        assert(heard == first_heard + tail);
        let dry = op_run(dry_run_of(config), operation, heard);
        assert(heard.skip(dry.calls.len() as int) =~= tail);
        lemma_dry_operations_as_applied(
            config,
            operations.skip(1),
            actual_tally.record(operation, first.calls, first.withheld, result),
            dry_tally.record(operation, dry.calls, dry.withheld, result),
            left,
        );
        lemma_selections_add(first.calls, later);
    }
}

} // verus!
