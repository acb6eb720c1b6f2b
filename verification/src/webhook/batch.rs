//! What applying a batch of changes means.
//!
//! A batch is a sequence of operations, each on one endpoint.  An
//! operation asks the provider for something, hears the reply, and goes on
//! or gives up.  The functions here say, for every sequence of replies,
//! which calls a batch makes and how it ends.  They are the measure of the
//! machine that applies a batch call by call.

use crate::config::ConfigView;
use crate::error::{Error, ErrorView};
use crate::njalla::types::{AddRecordRequestView, DnsRecordView, RemoveRecordRequestView};
use crate::text::{join, decimal, format_u64};
use crate::webhook::plan::{add_requests, allowed_zone_of, remove_requests};
use crate::webhook::types::{ApplyChangesResponse, ChangesView, EndpointView};
use vstd::prelude::*;

verus! {

/// One call to the provider, as plain values.
pub enum ProviderCallView {
    /// Asks for the records of a zone.  It changes nothing.
    ListRecords { zone: Seq<char> },
    /// Asks for one record to be added.
    AddRecord(AddRecordRequestView),
    /// Asks for one record to be removed.
    RemoveRecord(RemoveRecordRequestView),
}

/// The provider's reply to one call, as plain values.
pub enum ProviderReplyView {
    /// The records of the zone that was asked for.
    Records(Seq<DnsRecordView>),
    /// The change was made.
    Done,
    /// The call failed.
    Failed(ErrorView),
}

impl ProviderReplyView {
    /// The failure that the reply reports, if it reports one.
    pub open spec fn failure(self) -> Option<ErrorView> {
        match self {
            ProviderReplyView::Failed(e) => Some(e),
            _ => None,
        }
    }

    /// The records that the reply lists; none where it lists nothing.
    pub open spec fn records(self) -> Seq<DnsRecordView> {
        match self {
            ProviderReplyView::Records(records) => records,
            _ => Seq::empty(),
        }
    }
}

/// What an operation does with its endpoint.
#[derive(Debug, Clone, Copy, PartialEq, Eq)]
pub enum Action {
    /// Removes the live records that the endpoint stands for.
    Delete,
    /// Adds one record for each value of the endpoint.
    Create,
}

/// The list of a batch that an operation comes from.
#[derive(Debug, Clone, Copy, PartialEq, Eq)]
pub enum ChangeKind {
    Delete,
    Update,
    Create,
}

impl ChangeKind {
    /// The word that names the kind in the description of a failure.
    pub open spec fn word(self) -> Seq<char> {
        match self {
            ChangeKind::Delete => "Delete"@,
            ChangeKind::Update => "Update"@,
            ChangeKind::Create => "Create"@,
        }
    }
}

/// One operation of a batch, as plain values.
pub struct OperationView {
    /// What is done.
    pub action: Action,
    /// The endpoint that it is done with.
    pub endpoint: EndpointView,
    /// The list of the batch that asked for it.
    pub kind: ChangeKind,
    /// Whether the operation is the last one of its change.  The first
    /// half of an update is not: the change counts when both halves are
    /// through.
    pub closes: bool,
}

/// The operation that deletes the endpoint at position `i` of the
/// deletions.
pub open spec fn delete_operation(changes: ChangesView, i: int) -> OperationView {
    OperationView {
        action: Action::Delete,
        endpoint: changes.delete[i],
        kind: ChangeKind::Delete,
        closes: true,
    }
}

/// The operation that creates the endpoint at position `i` of the
/// creations.
pub open spec fn create_operation(changes: ChangesView, i: int) -> OperationView {
    OperationView {
        action: Action::Create,
        endpoint: changes.create[i],
        kind: ChangeKind::Create,
        closes: true,
    }
}

/// The first half of the update at position `i`: it deletes the old state.
pub open spec fn update_removal(changes: ChangesView, i: int) -> OperationView {
    OperationView {
        action: Action::Delete,
        endpoint: changes.update_old[i],
        kind: ChangeKind::Update,
        closes: false,
    }
}

/// The second half of the update at position `i`: it creates the new
/// state.
pub open spec fn update_creation(changes: ChangesView, i: int) -> OperationView {
    OperationView {
        action: Action::Create,
        endpoint: changes.update_new[i],
        kind: ChangeKind::Update,
        closes: true,
    }
}

/// The number of updates in a batch: the positions that hold both an old
/// and a new state.
pub open spec fn update_count(changes: ChangesView) -> nat {
    if changes.update_old.len() <= changes.update_new.len() {
        changes.update_old.len()
    } else {
        changes.update_new.len()
    }
}

/// The operations of all deletions, in their order.
pub open spec fn delete_operations(changes: ChangesView) -> Seq<OperationView> {
    Seq::new(changes.delete.len(), |i: int| delete_operation(changes, i))
}

/// The operations of all updates, in their order: for each update its
/// removal and then its creation.
pub open spec fn update_operations(changes: ChangesView) -> Seq<OperationView> {
    Seq::new(
        2 * update_count(changes),
        |k: int|
            if k % 2 == 0 {
                update_removal(changes, k / 2)
            } else {
                update_creation(changes, k / 2)
            },
    )
}

/// The operations of all creations, in their order.
pub open spec fn create_operations(changes: ChangesView) -> Seq<OperationView> {
    Seq::new(changes.create.len(), |i: int| create_operation(changes, i))
}

/// The operations of a batch, in the order in which they are carried out:
/// the deletions, then the updates, then the creations.
pub open spec fn operations_of(changes: ChangesView) -> Seq<OperationView> {
    delete_operations(changes) + update_operations(changes) + create_operations(changes)
}

/// What one operation, or a part of one, came to with the replies it had.
pub struct OpRun {
    /// The calls that were made, in order.
    pub calls: Seq<ProviderCallView>,
    /// The writes that were held back because the run is a dry run, in
    /// the order in which they would have been made.
    pub withheld: Seq<ProviderCallView>,
    /// How it ended.  `None` where the replies ran out: the last call
    /// still waits for its reply.
    pub result: Option<Result<(), ErrorView>>,
}

impl OpRun {
    /// The run that ends at once, without a call.
    pub open spec fn done(result: Result<(), ErrorView>) -> OpRun {
        OpRun { calls: Seq::empty(), withheld: Seq::empty(), result: Some(result) }
    }

    /// This run with the calls `first` made before it.
    pub open spec fn after(self, first: Seq<ProviderCallView>) -> OpRun {
        OpRun { calls: first + self.calls, withheld: self.withheld, result: self.result }
    }

    /// This run with the writes `writes` held back.
    pub open spec fn holding(self, writes: Seq<ProviderCallView>) -> OpRun {
        OpRun { calls: self.calls, withheld: writes, result: self.result }
    }
}

/// What comes of a call that was just made: it waits where there is no
/// reply yet, it ends the operation where the reply is a failure, and
/// else the operation goes on as `then`.
pub open spec fn answered(replies: Seq<ProviderReplyView>, then: OpRun) -> OpRun {
    if replies.len() == 0 {
        OpRun { calls: Seq::empty(), withheld: Seq::empty(), result: None }
    } else {
        match replies[0].failure() {
            Some(e) => OpRun::done(Err(e)),
            None => then,
        }
    }
}

/// Makes `calls` one after the other, each after the reply to the one
/// before, and stops at the first failure.
pub open spec fn send_all(calls: Seq<ProviderCallView>, replies: Seq<ProviderReplyView>) -> OpRun
    decreases calls.len(),
{
    if calls.len() == 0 {
        OpRun::done(Ok(()))
    } else {
        answered(replies, send_all(calls.skip(1), replies.skip(1))).after(seq![calls[0]])
    }
}

/// Calls that are made hold nothing back.
pub(crate) proof fn lemma_send_all_holds_nothing(
    calls: Seq<ProviderCallView>,
    replies: Seq<ProviderReplyView>,
)
    ensures
        send_all(calls, replies).withheld == Seq::<ProviderCallView>::empty(),
        send_all(calls, replies).holding(Seq::empty()) == send_all(calls, replies),
    decreases calls.len(),
{
    if calls.len() > 0 {
        lemma_send_all_holds_nothing(calls.skip(1), replies.skip(1));
    }
}

/// The calls that add the records of `endpoint` to `zone`.
pub open spec fn add_calls(endpoint: EndpointView, zone: Seq<char>) -> Seq<ProviderCallView> {
    let requests = add_requests(endpoint, zone);
    Seq::new(requests.len(), |i: int| ProviderCallView::AddRecord(requests[i]))
}

/// The calls that remove the records of `endpoint` from `zone`, whose
/// records are `live`.
pub open spec fn remove_calls(
    endpoint: EndpointView,
    zone: Seq<char>,
    live: Seq<DnsRecordView>,
) -> Seq<ProviderCallView> {
    let requests = remove_requests(endpoint, zone, live);
    Seq::new(requests.len(), |i: int| ProviderCallView::RemoveRecord(requests[i]))
}

/// The calls that change the provider's records for `operation` in
/// `zone`, whose records are `live`.
pub open spec fn planned_writes(
    operation: OperationView,
    zone: Seq<char>,
    live: Seq<DnsRecordView>,
) -> Seq<ProviderCallView> {
    match operation.action {
        Action::Delete => remove_calls(operation.endpoint, zone, live),
        Action::Create => add_calls(operation.endpoint, zone),
    }
}

/// The writes that `operation` makes.  A dry run makes none.
pub open spec fn writes_of(
    config: ConfigView,
    operation: OperationView,
    zone: Seq<char>,
    live: Seq<DnsRecordView>,
) -> Seq<ProviderCallView> {
    if config.dry_run {
        Seq::empty()
    } else {
        planned_writes(operation, zone, live)
    }
}

/// The writes that `operation` holds back: all of them in a dry run, and
/// none otherwise.
pub open spec fn withheld_of(
    config: ConfigView,
    operation: OperationView,
    zone: Seq<char>,
    live: Seq<DnsRecordView>,
) -> Seq<ProviderCallView> {
    if config.dry_run {
        planned_writes(operation, zone, live)
    } else {
        Seq::empty()
    }
}

/// One operation.  It fails without a call where the endpoint's zone
/// cannot be found or is not allowed.  A creation then makes its writes.
/// A deletion first lists the records of the zone, and makes the writes
/// that the listing calls for.  A reply that lists nothing where a
/// listing was asked for stands for a zone without records, and any reply
/// to a write but a failure says that the write was made.  In a dry run
/// the writes are held back and the operation is through without them.
pub open spec fn op_run(
    config: ConfigView,
    operation: OperationView,
    replies: Seq<ProviderReplyView>,
) -> OpRun {
    match allowed_zone_of(config, operation.endpoint) {
        Err(e) => OpRun::done(Err(e)),
        Ok(zone) => match operation.action {
            Action::Create => send_all(
                writes_of(config, operation, zone, Seq::empty()),
                replies,
            ).holding(withheld_of(config, operation, zone, Seq::empty())),
            Action::Delete => answered(
                replies,
                send_all(
                    writes_of(config, operation, zone, replies[0].records()),
                    replies.skip(1),
                ).holding(withheld_of(config, operation, zone, replies[0].records())),
            ).after(seq![ProviderCallView::ListRecords { zone }]),
        },
    }
}

/// The description of a failure in the answer to a batch.
pub open spec fn failure_text(kind: ChangeKind, name: Seq<char>, e: ErrorView) -> Seq<char> {
    kind.word() + " "@ + name + ": "@ + e.text()
}

/// The account of a batch while it is applied.
pub struct Tally {
    /// The calls made so far.
    pub calls: Seq<ProviderCallView>,
    /// The writes held back so far.
    pub withheld: Seq<ProviderCallView>,
    /// The changes that went through without a failure.
    pub applied: nat,
    /// The descriptions of the failures, in the order in which they came.
    pub errors: Seq<Seq<char>>,
    /// Whether the change in progress has had no failure yet.
    pub clean: bool,
}

impl Tally {
    /// The account of a batch that has not begun.
    pub open spec fn start() -> Tally {
        Tally {
            calls: Seq::empty(),
            withheld: Seq::empty(),
            applied: 0,
            errors: Seq::empty(),
            clean: true,
        }
    }

    /// The account after `operation` made `calls`, held `withheld` back
    /// and ended with `result`.
    pub open spec fn record(
        self,
        operation: OperationView,
        calls: Seq<ProviderCallView>,
        withheld: Seq<ProviderCallView>,
        result: Result<(), ErrorView>,
    ) -> Tally {
        let clean = self.clean && result is Ok;
        Tally {
            calls: self.calls + calls,
            withheld: self.withheld + withheld,
            applied: if operation.closes && clean {
                self.applied + 1
            } else {
                self.applied
            },
            errors: match result {
                Ok(_) => self.errors,
                Err(e) => self.errors.push(
                    failure_text(operation.kind, operation.endpoint.dns_name, e),
                ),
            },
            clean: operation.closes || clean,
        }
    }
}

/// How a list of strings is written by the `Debug` formatting of the
/// standard library: the strings in quotes, with what a reader could
/// mistake escaped, between square brackets.
pub uninterp spec fn debug_list(errors: Seq<Seq<char>>) -> Seq<char>;

/// The answer to a batch of which `applied` changes went through and
/// `failures` failures were met, written out as `listing`: a refusal where
/// there were failures and no change went through, else a message with the
/// count and, if anything failed, what failed.
pub open spec fn summary_of(applied: nat, failures: nat, listing: Seq<char>) -> Result<
    Seq<char>,
    ErrorView,
> {
    if failures == 0 {
        Ok("Successfully applied "@ + decimal(applied) + " changes"@)
    } else if applied == 0 {
        Err(ErrorView::Internal("All operations failed: "@ + listing))
    } else {
        Ok(
            "Applied "@ + decimal(applied) + " changes with "@ + decimal(failures) + " errors: "@
                + listing,
        )
    }
}

/// The answer to a batch of which `applied` changes went through and the
/// failures `errors` were met.
pub open spec fn outcome(applied: nat, errors: Seq<Seq<char>>) -> Result<Seq<char>, ErrorView> {
    summary_of(applied, errors.len(), debug_list(errors))
}

/// The text of an answer to a batch.
pub open spec fn answer_text(answer: Result<ApplyChangesResponse, Error>) -> Result<
    Seq<char>,
    ErrorView,
> {
    match answer {
        Ok(response) => Ok(response.message@),
        Err(e) => Err(e@),
    }
}

/// Writes `errors` with the `Debug` formatting of `Vec<String>`, through
/// the standard library's `format!` and `{:?}`.  What the text is, is
/// taken on trust and only named: it depends on nothing but `errors`.
#[verifier::external_body]
fn render_errors(errors: &Vec<String>) -> (listing: String)
    ensures
        listing@ == debug_list(errors.deep_view()),
{
    format!("{:?}", errors)
}

/// The answer to a batch of which `applied` changes went through and
/// `failures` failures were met, written out as `listing`.
pub fn summary(applied: usize, failures: usize, listing: &str) -> (answer: Result<
    ApplyChangesResponse,
    Error,
>)
    ensures
        answer_text(answer) == summary_of(applied as nat, failures as nat, listing@),
{
    if failures == 0 {
        let count = format_u64(applied as u64);
        let head = join("Successfully applied ", count.as_str());
        Ok(ApplyChangesResponse { message: join(head.as_str(), " changes") })
    } else if applied == 0 {
        Err(Error::Internal(join("All operations failed: ", listing)))
    } else {
        let count = format_u64(applied as u64);
        let failed = format_u64(failures as u64);
        let text = join("Applied ", count.as_str());
        let text = join(text.as_str(), " changes with ");
        let text = join(text.as_str(), failed.as_str());
        let text = join(text.as_str(), " errors: ");
        Ok(ApplyChangesResponse { message: join(text.as_str(), listing) })
    }
}

/// The answer to a batch of which `applied` changes went through and the
/// failures `errors` were met.
pub fn conclude(applied: usize, errors: &Vec<String>) -> (answer: Result<
    ApplyChangesResponse,
    Error,
>)
    ensures
        answer_text(answer) == outcome(applied as nat, errors.deep_view()),
{
    let listing = render_errors(errors);
    summary(applied, errors.len(), listing.as_str())
}

/// The description of a failure in the answer to a batch.
pub fn describe_failure(kind: ChangeKind, name: &str, e: &Error) -> (text: String)
    ensures
        text@ == failure_text(kind, name@, e@),
{
    let word = match kind {
        ChangeKind::Delete => "Delete",
        ChangeKind::Update => "Update",
        ChangeKind::Create => "Create",
    };
    let cause = e.to_text();
    let text = join(word, " ");
    let text = join(text.as_str(), name);
    let text = join(text.as_str(), ": ");
    join(text.as_str(), cause.as_str())
}

/// What a batch came to with the replies it had.
pub struct BatchRun {
    /// The calls that were made, in order.
    pub calls: Seq<ProviderCallView>,
    /// The writes that were held back because the run is a dry run, in
    /// the order in which they would have been made.
    pub withheld: Seq<ProviderCallView>,
    /// The answer to the controller: a message or a failure.  `None`
    /// where the replies ran out: the last call still waits for its reply.
    pub outcome: Option<Result<Seq<char>, ErrorView>>,
}

/// Carries out `operations` in order, from the account `tally` on.  Each
/// operation hears the replies that those before it left.
pub open spec fn run_operations(
    config: ConfigView,
    operations: Seq<OperationView>,
    tally: Tally,
    replies: Seq<ProviderReplyView>,
) -> BatchRun
    decreases operations.len(), 1int,
{
    if operations.len() == 0 {
        BatchRun {
            calls: tally.calls,
            withheld: tally.withheld,
            outcome: Some(outcome(tally.applied, tally.errors)),
        }
    } else {
        run_later(
            config,
            operations.skip(1),
            tally,
            operations[0],
            op_run(config, operations[0], replies),
            replies,
        )
    }
}

/// What a batch comes to once `operation` has come to `run` with
/// `replies`: it waits where the operation waits, and else the operation
/// is entered in the account and the operations `later` are carried out
/// with the replies that it left.
pub open spec fn run_later(
    config: ConfigView,
    later: Seq<OperationView>,
    tally: Tally,
    operation: OperationView,
    run: OpRun,
    replies: Seq<ProviderReplyView>,
) -> BatchRun
    decreases later.len() + 1, 0int,
{
    match run.result {
        None => BatchRun {
            calls: tally.calls + run.calls,
            withheld: tally.withheld + run.withheld,
            outcome: None,
        },
        Some(result) => run_operations(
            config,
            later,
            tally.record(operation, run.calls, run.withheld, result),
            replies.skip(run.calls.len() as int),
        ),
    }
}

/// What there is to do next for a batch, as plain values.
pub enum StepView {
    /// This call is to be made, and its reply handed back.
    Call(ProviderCallView),
    /// The batch is through, with this answer.
    Finished(Result<Seq<char>, ErrorView>),
}

impl BatchRun {
    /// What there is to do next: to make the call that waits for its
    /// reply, or to hand the answer to the controller.
    pub open spec fn next_step(self) -> StepView {
        match self.outcome {
            Some(answer) => StepView::Finished(answer),
            None => StepView::Call(self.calls.last()),
        }
    }
}

/// Applies the batch `changes` under `config`, with `replies` as the
/// provider's replies to the calls in the order in which they are made.
/// An empty batch is answered at once.
pub open spec fn batch_run(
    config: ConfigView,
    changes: ChangesView,
    replies: Seq<ProviderReplyView>,
) -> BatchRun {
    if changes.is_empty() {
        BatchRun {
            calls: Seq::empty(),
            withheld: Seq::empty(),
            outcome: Some(Ok("No changes to apply"@)),
        }
    } else {
        run_operations(config, operations_of(changes), Tally::start(), replies)
    }
}

} // verus!
