//! What holds of every batch, whatever the provider replies.

use crate::config::ConfigView;
use crate::error::ErrorView;
use crate::webhook::batch::{
    batch_run, create_operation, delete_operation, op_run, operations_of, outcome,
    planned_writes, run_later, run_operations, send_all, update_creation, update_removal,
    writes_of, BatchRun, OpRun, OperationView, ProviderCallView, ProviderReplyView, Tally,
};
use crate::webhook::plan::{allowed_zone_of, lemma_no_match_no_removal, record_matches};
use crate::webhook::types::{ChangesView, EndpointView};
use crate::webhook::zone::relative_name;
use vstd::prelude::*;

verus! {

/// The batch that only deletes `endpoint`.
pub open spec fn only_delete(endpoint: EndpointView) -> ChangesView {
    ChangesView {
        create: Seq::empty(),
        update_old: Seq::empty(),
        update_new: Seq::empty(),
        delete: seq![endpoint],
    }
}

/// The batch that only creates `endpoint`.
pub open spec fn only_create(endpoint: EndpointView) -> ChangesView {
    ChangesView {
        create: seq![endpoint],
        update_old: Seq::empty(),
        update_new: Seq::empty(),
        delete: Seq::empty(),
    }
}

/// The batch that only replaces `old` by `new`.
pub open spec fn only_update(old: EndpointView, new: EndpointView) -> ChangesView {
    ChangesView {
        create: Seq::empty(),
        update_old: seq![old],
        update_new: seq![new],
        delete: Seq::empty(),
    }
}

/// An empty batch is answered at once, without a call, whatever the
/// settings.
pub proof fn lemma_empty_batch(
    config: ConfigView,
    changes: ChangesView,
    replies: Seq<ProviderReplyView>,
)
    requires
        changes.is_empty(),
    ensures
        batch_run(config, changes, replies).calls == Seq::<ProviderCallView>::empty(),
        batch_run(config, changes, replies).outcome == Some(
            Ok::<Seq<char>, ErrorView>("No changes to apply"@),
        ),
{
}

/// A batch is refused as a whole exactly where something failed and
/// nothing went through.
pub proof fn lemma_refused_iff_nothing_applied(applied: nat, errors: Seq<Seq<char>>)
    ensures
        outcome(applied, errors) is Err <==> errors.len() > 0 && applied == 0,
{
}

/// A deletion whose endpoint matches no live record asks for the listing
/// and for nothing else, and does not fail.
pub proof fn lemma_delete_without_match(
    config: ConfigView,
    operation: OperationView,
    zone: Seq<char>,
    replies: Seq<ProviderReplyView>,
)
    requires
        operation.action is Delete,
        allowed_zone_of(config, operation.endpoint) == Ok::<Seq<char>, ErrorView>(zone),
        replies.len() > 0,
        replies[0].failure() is None,
        forall|i: int|
            0 <= i < replies[0].records().len() ==> !record_matches(
                #[trigger] replies[0].records()[i],
                operation.endpoint,
                relative_name(operation.endpoint.dns_name, zone),
            ),
    ensures
        op_run(config, operation, replies) == (OpRun {
            calls: seq![ProviderCallView::ListRecords { zone }],
            withheld: Seq::empty(),
            result: Some(Ok(())),
        }),
{
    let live = replies[0].records();
    lemma_no_match_no_removal(live, operation.endpoint, zone);
    let planned = planned_writes(operation, zone, live);
    assert(planned =~= Seq::<ProviderCallView>::empty());
    let run = op_run(config, operation, replies);
    assert(run.calls =~= seq![ProviderCallView::ListRecords { zone }]);
}

/// A batch that deletes one endpoint which matches no live record asks
/// for the listing and for nothing else, and reports one change applied.
pub proof fn lemma_delete_is_idempotent(
    config: ConfigView,
    endpoint: EndpointView,
    zone: Seq<char>,
    replies: Seq<ProviderReplyView>,
)
    requires
        allowed_zone_of(config, endpoint) == Ok::<Seq<char>, ErrorView>(zone),
        replies.len() > 0,
        replies[0].failure() is None,
        forall|i: int|
            0 <= i < replies[0].records().len() ==> !record_matches(
                #[trigger] replies[0].records()[i],
                endpoint,
                relative_name(endpoint.dns_name, zone),
            ),
    ensures
        batch_run(config, only_delete(endpoint), replies) == (BatchRun {
            calls: seq![ProviderCallView::ListRecords { zone }],
            withheld: Seq::empty(),
            outcome: Some(outcome(1, Seq::empty())),
        }),
{
    let changes = only_delete(endpoint);
    let operation = delete_operation(changes, 0);
    let start = Tally::start();
    let listing = seq![ProviderCallView::ListRecords { zone }];
    let none = Seq::<ProviderCallView>::empty();
    lemma_delete_without_match(config, operation, zone, replies);
    assert(operations_of(changes) =~= seq![operation]);
    assert(seq![operation].skip(1) =~= Seq::<OperationView>::empty());
    assert(seq![operation][0] == operation);
    reveal_with_fuel(run_operations, 2);
    reveal_with_fuel(run_later, 2);
    assert(start.calls + listing =~= listing);
    assert(start.withheld + none =~= none);
}

/// An update makes the calls of the deletion of the old state, and then,
/// once that deletion has ended one way or the other, the calls of the
/// creation of the new state.
pub proof fn lemma_update_is_delete_then_create(
    config: ConfigView,
    old: EndpointView,
    new: EndpointView,
    replies: Seq<ProviderReplyView>,
)
    ensures
        ({
            let update = batch_run(config, only_update(old, new), replies);
            let deletion = batch_run(config, only_delete(old), replies);
            let creation = batch_run(
                config,
                only_create(new),
                replies.skip(deletion.calls.len() as int),
            );
            update.calls == if deletion.outcome is None {
                deletion.calls
            } else {
                deletion.calls + creation.calls
            }
        }),
{
    let none = Seq::<OperationView>::empty();
    let start = Tally::start();
    let update = only_update(old, new);
    let deletion = only_delete(old);
    let creation = only_create(new);
    let removal = update_removal(update, 0);
    let making = update_creation(update, 0);
    let delete = delete_operation(deletion, 0);
    let create = create_operation(creation, 0);
    assert(operations_of(update) =~= seq![removal, making]);
    assert(operations_of(deletion) =~= seq![delete]);
    assert(operations_of(creation) =~= seq![create]);
    assert(seq![removal, making].skip(1) =~= seq![making]);
    assert(seq![making].skip(1) =~= none);
    assert(seq![delete].skip(1) =~= none);
    assert(seq![create].skip(1) =~= none);
    reveal_with_fuel(run_operations, 4);
    reveal_with_fuel(run_later, 4);
    assert(seq![making][0] == making);
    assert(seq![create][0] == create);
    let first = op_run(config, removal, replies);
    assert(first == op_run(config, delete, replies));
    assert(seq![removal, making][0] == removal);
    assert(seq![delete][0] == delete);
    assert(start.calls + first.calls =~= first.calls);
    match first.result {
        None => {
            let waiting = BatchRun {
                calls: start.calls + first.calls,
                withheld: start.withheld + first.withheld,
                outcome: None,
            };
            assert(run_operations(config, seq![removal, making], start, replies) == waiting);
            assert(run_operations(config, seq![delete], start, replies) == waiting);
        },
        Some(result) => {
            let left = replies.skip(first.calls.len() as int);
            let second = op_run(config, making, left);
            assert(second == op_run(config, create, left));
            let entered = start.record(removal, first.calls, first.withheld, result);
            assert(entered.calls =~= first.calls);
            assert(start.calls + second.calls =~= second.calls);
            match second.result {
                None => {},
                Some(ended) => {
                    assert(entered.record(making, second.calls, second.withheld, ended).calls
                        =~= first.calls + second.calls);
                    assert(start.record(create, second.calls, second.withheld, ended).calls
                        =~= second.calls);
                    assert(start.record(delete, first.calls, first.withheld, result).calls
                        =~= first.calls);
                },
            }
        },
    }
}

/// Every call but the last has its reply before the next is made: a
/// batch that waits has made one call more than it has had replies, and a
/// batch that is through has made no more calls than it has had replies.
pub proof fn lemma_one_call_in_flight(
    config: ConfigView,
    changes: ChangesView,
    replies: Seq<ProviderReplyView>,
)
    ensures
        batch_run(config, changes, replies).outcome is None ==> batch_run(
            config,
            changes,
            replies,
        ).calls.len() == replies.len() + 1,
        batch_run(config, changes, replies).outcome is Some ==> batch_run(
            config,
            changes,
            replies,
        ).calls.len() <= replies.len(),
{
    if !changes.is_empty() {
        lemma_operations_keep_step(config, operations_of(changes), Tally::start(), replies);
    }
}

/// Calls that are made one after the other keep step with their replies.
proof fn lemma_writes_keep_step(writes: Seq<ProviderCallView>, replies: Seq<ProviderReplyView>)
    ensures
        send_all(writes, replies).result is None ==> send_all(writes, replies).calls.len()
            == replies.len() + 1,
        send_all(writes, replies).result is Some ==> send_all(writes, replies).calls.len()
            <= replies.len(),
    decreases writes.len(),
{
    if writes.len() > 0 {
        lemma_writes_keep_step(writes.skip(1), replies.skip(1));
    }
}

/// The calls of an operation keep step with its replies.
proof fn lemma_operation_keeps_step(
    config: ConfigView,
    operation: OperationView,
    replies: Seq<ProviderReplyView>,
)
    ensures
        op_run(config, operation, replies).result is None ==> op_run(
            config,
            operation,
            replies,
        ).calls.len() == replies.len() + 1,
        op_run(config, operation, replies).result is Some ==> op_run(
            config,
            operation,
            replies,
        ).calls.len() <= replies.len(),
{
    match allowed_zone_of(config, operation.endpoint) {
        Err(_) => {},
        Ok(zone) => {
            lemma_writes_keep_step(writes_of(config, operation, zone, Seq::empty()), replies);
            lemma_writes_keep_step(
                writes_of(config, operation, zone, replies[0].records()),
                replies.skip(1),
            );
        },
    }
}

/// The calls of operations that are carried out in order keep step with
/// their replies.
proof fn lemma_operations_keep_step(
    config: ConfigView,
    operations: Seq<OperationView>,
    tally: Tally,
    replies: Seq<ProviderReplyView>,
)
    ensures
        ({
            let run = run_operations(config, operations, tally, replies);
            &&& run.outcome is None ==> run.calls.len() == tally.calls.len() + replies.len() + 1
            &&& run.outcome is Some ==> run.calls.len() <= tally.calls.len() + replies.len()
        }),
    decreases operations.len(),
{
    if operations.len() > 0 {
        let first = op_run(config, operations[0], replies);
        lemma_operation_keeps_step(config, operations[0], replies);
        match first.result {
            None => {},
            Some(result) => {
                lemma_operations_keep_step(
                    config,
                    operations.skip(1),
                    tally.record(operations[0], first.calls, first.withheld, result),
                    replies.skip(first.calls.len() as int),
                );
            },
        }
    }
}

} // verus!
