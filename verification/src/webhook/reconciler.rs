//! The machine that applies a batch of changes call by call.
//!
//! The machine never speaks to the provider itself.  It hands out one
//! call at a time and is handed the reply; whoever drives it makes the
//! call.  After every step it has made exactly the calls, and gives
//! exactly the answer, that [`batch_run`] assigns to the replies it has
//! had.

use crate::config::{Config, ConfigView};
use crate::error::{Error, ErrorView};
use crate::njalla::types::{AddRecordRequest, DnsRecord, DnsRecordView, RemoveRecordRequest};
use crate::text::copy_of;
use crate::webhook::batch::{
    add_calls, answer_text, batch_run, conclude, create_operation, create_operations,
    delete_operation, delete_operations, describe_failure, failure_text, op_run, operations_of,
    planned_writes, remove_calls, update_count, update_creation, update_operations,
    update_removal, Action, BatchRun, ChangeKind, OpRun, OperationView, ProviderCallView,
    ProviderReplyView, StepView, Tally,
};
use crate::webhook::plan::{allowed_zone, allowed_zone_of, create_requests, removal_requests};
use crate::webhook::progress::{
    all_went_well, between, in_step, is_writing, lead_calls, lemma_in_flight,
    lemma_operation_begins, lemma_operation_ends, lemma_operation_goes_on,
    lemma_operation_skipped,
};
use crate::webhook::types::{ApplyChangesResponse, Changes, ChangesView, Endpoint};
use vstd::prelude::*;

verus! {

/// One call to the provider.
#[derive(Debug, Clone, PartialEq, Eq)]
pub enum ProviderCall {
    /// Asks for the records of a zone.  It changes nothing.
    ListRecords { zone: String },
    /// Asks for one record to be added.
    AddRecord(AddRecordRequest),
    /// Asks for one record to be removed.
    RemoveRecord(RemoveRecordRequest),
}

impl View for ProviderCall {
    type V = ProviderCallView;

    open spec fn view(&self) -> ProviderCallView {
        match self {
            ProviderCall::ListRecords { zone } => ProviderCallView::ListRecords { zone: zone@ },
            ProviderCall::AddRecord(request) => ProviderCallView::AddRecord(request@),
            ProviderCall::RemoveRecord(request) => ProviderCallView::RemoveRecord(request@),
        }
    }
}

impl DeepView for ProviderCall {
    type V = ProviderCallView;

    open spec fn deep_view(&self) -> ProviderCallView {
        self@
    }
}

impl ProviderCall {
    /// The same call in a value of its own.
    pub fn duplicate(&self) -> (copy: ProviderCall)
        ensures
            copy@ == self@,
    {
        match self {
            ProviderCall::ListRecords { zone } => ProviderCall::ListRecords { zone: zone.clone() },
            ProviderCall::AddRecord(request) => ProviderCall::AddRecord(
                AddRecordRequest {
                    domain: request.domain.clone(),
                    name: request.name.clone(),
                    record_type: request.record_type.clone(),
                    content: request.content.clone(),
                    ttl: request.ttl,
                    priority: request.priority,
                },
            ),
            ProviderCall::RemoveRecord(request) => ProviderCall::RemoveRecord(
                RemoveRecordRequest { domain: request.domain.clone(), id: request.id.clone() },
            ),
        }
    }
}

/// The provider's reply to one call.  What is not a failure is taken as
/// success: `Done` in reply to a listing stands for a zone without
/// records, and `Records` in reply to a write says that the write was
/// made.
#[derive(Debug, Clone, PartialEq, Eq)]
pub enum ProviderReply {
    /// The records of the zone that was asked for.
    Records(Vec<DnsRecord>),
    /// The change was made.
    Done,
    /// The call failed.
    Failed(Error),
}

impl View for ProviderReply {
    type V = ProviderReplyView;

    open spec fn view(&self) -> ProviderReplyView {
        match self {
            ProviderReply::Records(records) => ProviderReplyView::Records(records.deep_view()),
            ProviderReply::Done => ProviderReplyView::Done,
            ProviderReply::Failed(e) => ProviderReplyView::Failed(e@),
        }
    }
}

impl DeepView for ProviderReply {
    type V = ProviderReplyView;

    open spec fn deep_view(&self) -> ProviderReplyView {
        self@
    }
}

/// One operation of a batch.
#[derive(Debug, Clone, PartialEq, Eq)]
pub struct Operation {
    /// What is done.
    pub action: Action,
    /// The endpoint that it is done with.
    pub endpoint: Endpoint,
    /// The list of the batch that asked for it.
    pub kind: ChangeKind,
    /// Whether the operation is the last one of its change.
    pub closes: bool,
}

impl View for Operation {
    type V = OperationView;

    open spec fn view(&self) -> OperationView {
        OperationView {
            action: self.action,
            endpoint: self.endpoint@,
            kind: self.kind,
            closes: self.closes,
        }
    }
}

impl DeepView for Operation {
    type V = OperationView;

    open spec fn deep_view(&self) -> OperationView {
        self@
    }
}

/// What there is to do next for a batch.
#[derive(Debug, PartialEq, Eq)]
pub enum Step {
    /// This call is to be made, and its reply handed back.
    Call(ProviderCall),
    /// The batch is through, with this answer.
    Finished(Result<ApplyChangesResponse, Error>),
}

impl View for Step {
    type V = StepView;

    open spec fn view(&self) -> StepView {
        match self {
            Step::Call(call) => StepView::Call(call@),
            Step::Finished(answer) => StepView::Finished(answer_text(*answer)),
        }
    }
}

/// The operations of a batch, in the order in which they are carried out.
pub fn operations(changes: &Changes) -> (list: Vec<Operation>)
    ensures
        list.deep_view() == operations_of(changes@),
{
    let ghost batch = changes@;
    let mut list: Vec<Operation> = Vec::new();
    let mut i: usize = 0;
    while i < changes.delete.len()
        invariant
            i <= changes.delete.len(),
            batch == changes@,
            list.deep_view() == delete_operations(batch).take(i as int),
        decreases changes.delete.len() - i,
    {
        let ghost before = list.deep_view();
        assert(batch.delete[i as int] == changes.delete[i as int]@);
        list.push(
            Operation {
                action: Action::Delete,
                endpoint: changes.delete[i].duplicate(),
                kind: ChangeKind::Delete,
                closes: true,
            },
        );
        assert(list.deep_view() =~= before.push(delete_operation(batch, i as int)));
        assert(delete_operations(batch).take(i + 1) =~= delete_operations(batch).take(
            i as int,
        ).push(delete_operation(batch, i as int)));
        i += 1;
    }
    assert(delete_operations(batch).take(i as int) =~= delete_operations(batch));
    let pairs: usize = if changes.update_old.len() <= changes.update_new.len() {
        changes.update_old.len()
    } else {
        changes.update_new.len()
    };
    let mut j: usize = 0;
    proof {
        assert(update_operations(batch).take(0) =~= Seq::<OperationView>::empty());
        assert(list.deep_view() =~= delete_operations(batch) + update_operations(batch).take(0));
    }
    while j < pairs
        invariant
            j <= pairs,
            pairs == update_count(batch),
            pairs <= changes.update_old.len(),
            pairs <= changes.update_new.len(),
            batch == changes@,
            list.deep_view() == delete_operations(batch) + update_operations(batch).take(2 * j),
        decreases pairs - j,
    {
        let ghost before = list.deep_view();
        assert(batch.update_old[j as int] == changes.update_old[j as int]@);
        assert(batch.update_new[j as int] == changes.update_new[j as int]@);
        list.push(
            Operation {
                action: Action::Delete,
                endpoint: changes.update_old[j].duplicate(),
                kind: ChangeKind::Update,
                closes: false,
            },
        );
        list.push(
            Operation {
                action: Action::Create,
                endpoint: changes.update_new[j].duplicate(),
                kind: ChangeKind::Update,
                closes: true,
            },
        );
        proof {
            let halves = update_operations(batch);
            assert(halves[2 * j] == update_removal(batch, j as int));
            assert(halves[2 * j + 1] == update_creation(batch, j as int));
            assert(halves.take(2 * (j + 1)) =~= halves.take(2 * j).push(halves[2 * j]).push(
                halves[2 * j + 1],
            ));
            assert(list.deep_view() =~= before.push(update_removal(batch, j as int)).push(
                update_creation(batch, j as int),
            ));
        }
        j += 1;
    }
    assert(update_operations(batch).take(2 * j) =~= update_operations(batch));
    let mut k: usize = 0;
    proof {
        assert(list.deep_view() =~= delete_operations(batch) + update_operations(batch)
            + create_operations(batch).take(0));
    }
    while k < changes.create.len()
        invariant
            k <= changes.create.len(),
            batch == changes@,
            list.deep_view() == delete_operations(batch) + update_operations(batch)
                + create_operations(batch).take(k as int),
        decreases changes.create.len() - k,
    {
        let ghost before = list.deep_view();
        assert(batch.create[k as int] == changes.create[k as int]@);
        list.push(
            Operation {
                action: Action::Create,
                endpoint: changes.create[k].duplicate(),
                kind: ChangeKind::Create,
                closes: true,
            },
        );
        assert(list.deep_view() =~= before.push(create_operation(batch, k as int)));
        assert(create_operations(batch).take(k + 1) =~= create_operations(batch).take(
            k as int,
        ).push(create_operation(batch, k as int)));
        k += 1;
    }
    assert(create_operations(batch).take(k as int) =~= create_operations(batch));
    list
}

/// The calls that add the records of `endpoint` to `zone`.
fn add_record_calls(endpoint: &Endpoint, zone: &str) -> (calls: Vec<ProviderCall>)
    ensures
        calls.deep_view() == add_calls(endpoint@, zone@),
{
    let requests = create_requests(endpoint, zone);
    let ghost wanted = requests.deep_view();
    let mut calls: Vec<ProviderCall> = Vec::new();
    for request in it: requests.into_iter()
        invariant
            calls.len() == it.index(),
            it.seq() == requests@,
            wanted == requests.deep_view(),
            forall|i: int|
                0 <= i < calls.len() ==> (#[trigger] calls[i])@ == ProviderCallView::AddRecord(
                    wanted[i],
                ),
    {
        calls.push(ProviderCall::AddRecord(request));
    }
    assert(calls.deep_view() =~= add_calls(endpoint@, zone@));
    calls
}

/// The calls that remove the records of `endpoint` from `zone`, whose
/// records are `live`.
fn remove_record_calls(endpoint: &Endpoint, zone: &str, live: &Vec<DnsRecord>) -> (calls: Vec<
    ProviderCall,
>)
    ensures
        calls.deep_view() == remove_calls(endpoint@, zone@, live.deep_view()),
{
    let requests = removal_requests(endpoint, zone, live);
    let ghost wanted = requests.deep_view();
    let mut calls: Vec<ProviderCall> = Vec::new();
    for request in it: requests.into_iter()
        invariant
            calls.len() == it.index(),
            it.seq() == requests@,
            wanted == requests.deep_view(),
            forall|i: int|
                0 <= i < calls.len() ==> (#[trigger] calls[i])@ == ProviderCallView::RemoveRecord(
                    wanted[i],
                ),
    {
        calls.push(ProviderCall::RemoveRecord(request));
    }
    assert(calls.deep_view() =~= remove_calls(endpoint@, zone@, live.deep_view()));
    calls
}

/// The result of an operation as plain values.
pub open spec fn result_view(result: Result<(), Error>) -> Result<(), ErrorView> {
    match result {
        Ok(_) => Ok(()),
        Err(e) => Err(e@),
    }
}

/// Enters the end of `operation` in the account of a batch.
fn enter(
    operation: &Operation,
    result: Result<(), Error>,
    applied: &mut usize,
    errors: &mut Vec<String>,
    clean: &mut bool,
)
    requires
        *old(applied) < usize::MAX,
    ensures
        ({
            let before = Tally {
                calls: Seq::empty(),
                withheld: Seq::empty(),
                applied: *old(applied) as nat,
                errors: old(errors).deep_view(),
                clean: *old(clean),
            };
            let after = before.record(
                operation@,
                Seq::empty(),
                Seq::empty(),
                result_view(result),
            );
            &&& *final(applied) == after.applied
            &&& final(errors).deep_view() == after.errors
            &&& *final(clean) == after.clean
        }),
{
    let ghost listed = errors.deep_view();
    match result {
        Ok(_) => {},
        Err(e) => {
            let text = describe_failure(
                operation.kind,
                operation.endpoint.dns_name.as_str(),
                &e,
            );
            errors.push(text);
            *clean = false;
            assert(errors.deep_view() =~= listed.push(
                failure_text(operation.kind, operation.endpoint@.dns_name, e@),
            ));
        },
    }
    if operation.closes {
        if *clean {
            *applied = *applied + 1;
        }
        *clean = true;
    }
}

/// Holds the writes `planned` back: they are kept for the record and not
/// made.
fn hold_back(withheld: &mut Vec<ProviderCall>, planned: Vec<ProviderCall>)
    ensures
        final(withheld).deep_view() == old(withheld).deep_view() + planned.deep_view(),
{
    let ghost before = withheld.deep_view();
    let mut planned = planned;
    let ghost added = planned.deep_view();
    withheld.append(&mut planned);
    assert(withheld.deep_view() =~= before + added);
}

/// The machine that applies one batch of changes.  It is made with the
/// batch, hands out the calls one at a time, and is through when it hands
/// out the answer.
pub struct Reconciler {
    config: Config,
    /// The operations of the batch.
    operations: Vec<Operation>,
    /// The position of the operation in progress; those before it are
    /// through.
    position: usize,
    /// The zone of the operation in progress.
    zone: String,
    /// Whether the call in flight is the listing of a deletion.
    listing: bool,
    /// The writes of the operation in progress.
    writes: Vec<ProviderCall>,
    /// How many of the writes are behind or in flight.
    sent: usize,
    applied: usize,
    errors: Vec<String>,
    clean: bool,
    /// The writes that were held back so far.
    withheld: Vec<ProviderCall>,
    /// Whether a call is in flight.
    waiting: bool,
    changes: Ghost<ChangesView>,
    /// All replies so far.
    replies: Ghost<Seq<ProviderReplyView>>,
    /// The replies that the operation in progress has had.
    heard: Ghost<Seq<ProviderReplyView>>,
    /// The calls of the operations that are through.
    calls: Ghost<Seq<ProviderCallView>>,
}

impl Reconciler {
    /// The settings that the batch is applied under.
    pub closed spec fn config(&self) -> ConfigView {
        self.config@
    }

    /// The batch that is applied.
    pub closed spec fn changes(&self) -> ChangesView {
        self.changes@
    }

    /// The replies that the machine has been handed, in order.
    pub closed spec fn replies(&self) -> Seq<ProviderReplyView> {
        self.replies@
    }

    /// What the batch has come to with the replies so far.
    pub open spec fn run(&self) -> BatchRun {
        batch_run(self.config(), self.changes(), self.replies())
    }

    spec fn tally(&self) -> Tally {
        Tally {
            calls: self.calls@,
            withheld: self.withheld.deep_view(),
            applied: self.applied as nat,
            errors: self.errors.deep_view(),
            clean: self.clean,
        }
    }

    spec fn rest(&self) -> Seq<OperationView> {
        self.operations.deep_view().skip(self.position as int)
    }

    spec fn current(&self) -> OperationView {
        self.operations[self.position as int]@
    }

    /// The call in flight.
    spec fn in_flight(&self) -> ProviderCallView {
        if self.listing {
            ProviderCallView::ListRecords { zone: self.zone@ }
        } else {
            self.writes[self.sent - 1]@
        }
    }

    /// The calls of the operation in progress.
    spec fn made(&self) -> Seq<ProviderCallView> {
        if self.listing {
            seq![ProviderCallView::ListRecords { zone: self.zone@ }]
        } else {
            lead_calls(self.current(), self.zone@) + self.writes.deep_view().take(self.sent as int)
        }
    }

    spec fn stage(&self) -> bool {
        if self.listing {
            &&& allowed_zone_of(self.config@, self.current().endpoint) == Ok::<
                Seq<char>,
                ErrorView,
            >(self.zone@)
            &&& self.current().action is Delete
            &&& self.heard@.len() == 0
        } else {
            is_writing(
                self.config@,
                self.current(),
                self.zone@,
                self.writes.deep_view(),
                self.sent as int,
                self.heard@,
            )
        }
    }

    spec fn in_step_always(&self) -> bool {
        forall|f: Seq<ProviderReplyView>| #[trigger]
            in_step(
                self.config@,
                self.changes@,
                self.replies@,
                self.rest().skip(1),
                self.tally(),
                self.current(),
                self.heard@,
                f,
            )
    }

    spec fn between_always(&self) -> bool {
        forall|f: Seq<ProviderReplyView>| #[trigger]
            between(self.config@, self.changes@, self.replies@, self.rest(), self.tally(), f)
    }

    spec fn counts(&self) -> bool {
        self.position <= self.operations.len() && self.applied <= self.position
    }

    /// What holds of a machine between two steps: it keeps the account of
    /// the batch as [`batch_run`] does.
    pub closed spec fn wf(&self) -> bool {
        &&& self.counts()
        &&& if self.waiting {
            self.position < self.operations.len() && self.stage() && self.in_step_always()
        } else {
            self.run().outcome is Some && self.run().withheld == self.withheld.deep_view()
        }
    }

    /// A machine that waits for a reply has made the calls of the
    /// operation in progress, the last of them in flight.
    proof fn lemma_waits(&self)
        requires
            self.waiting,
            self.position < self.operations.len(),
            self.stage(),
            self.in_step_always(),
        ensures
            self.run().outcome is None,
            self.run().next_step() == StepView::Call(self.in_flight()),
            self.run().withheld == self.withheld.deep_view(),
    {
        let none = Seq::<ProviderReplyView>::empty();
        assert(in_step(
            self.config@,
            self.changes@,
            self.replies@,
            self.rest().skip(1),
            self.tally(),
            self.current(),
            self.heard@,
            none,
        ));
        assert(self.replies@ + none =~= self.replies@);
        assert(self.heard@ + none =~= self.heard@);
        if !self.listing {
            lemma_in_flight(
                self.config@,
                self.current(),
                self.zone@,
                self.writes.deep_view(),
                self.sent as int,
                self.heard@,
                none,
            );
        }
        let run = op_run(self.config@, self.current(), self.heard@);
        assert(run.result is None);
        assert(run.calls =~= self.made());
        assert(self.tally().withheld + run.withheld =~= self.tally().withheld);
        assert((self.tally().calls + self.made()).last() == self.in_flight());
    }

    /// Whether a call is in flight, so that the machine can be handed a
    /// reply.
    pub fn is_waiting(&self) -> (waiting: bool)
        requires
            self.wf(),
        ensures
            waiting == (self.run().outcome is None),
    {
        proof {
            if self.waiting {
                self.lemma_waits();
            }
        }
        self.waiting
    }

    /// The writes that were held back so far because the run is a dry
    /// run, in the order in which they would have been made.
    pub fn withheld(&self) -> (writes: &Vec<ProviderCall>)
        requires
            self.wf(),
        ensures
            writes.deep_view() == self.run().withheld,
    {
        proof {
            if self.waiting {
                self.lemma_waits();
            }
        }
        &self.withheld
    }
}

impl Reconciler {
    /// Goes through the operations that are left until one of them makes
    /// a call or none is left.
    fn advance(&mut self) -> (step: Step)
        requires
            old(self).counts(),
            old(self).between_always(),
        ensures
            final(self).wf(),
            final(self).config() == old(self).config(),
            final(self).changes() == old(self).changes(),
            final(self).replies() == old(self).replies(),
            step@ == final(self).run().next_step(),
    {
        let ghost config = self.config@;
        let ghost changes = self.changes@;
        let ghost replies = self.replies@;
        while self.position < self.operations.len()
            invariant
                self.counts(),
                self.between_always(),
                self.config@ == config,
                self.changes@ == changes,
                self.replies@ == replies,
                old(self).config@ == config,
                old(self).changes@ == changes,
                old(self).replies@ == replies,
            decreases self.operations.len() - self.position,
        {
            let ghost rest = self.rest();
            let ghost tally = self.tally();
            let ghost none = Seq::<ProviderReplyView>::empty();
            let ghost nothing = Seq::<ProviderCallView>::empty();
            proof {
                assert(rest[0] == self.operations[self.position as int]@);
                assert(rest.skip(1) =~= self.operations.deep_view().skip(self.position + 1));
                assert(tally.calls + nothing =~= tally.calls);
                assert(tally.withheld + nothing =~= tally.withheld);
            }
            let planned = match allowed_zone(
                &self.config,
                &self.operations[self.position].endpoint,
            ) {
                Err(e) => {
                    let ghost failed = Err::<(), ErrorView>(e@);
                    proof {
                        lemma_operation_skipped(
                            config,
                            changes,
                            replies,
                            rest,
                            tally,
                            nothing,
                            failed,
                        );
                    }
                    enter(
                        &self.operations[self.position],
                        Err(e),
                        &mut self.applied,
                        &mut self.errors,
                        &mut self.clean,
                    );
                    assert(self.tally() == tally.record(rest[0], nothing, nothing, failed));
                    None
                },
                Ok(zone) => match self.operations[self.position].action {
                    Action::Delete => {
                        let call = ProviderCall::ListRecords { zone: copy_of(zone.as_str()) };
                        self.zone = zone;
                        self.listing = true;
                        self.heard = Ghost(none);
                        self.waiting = true;
                        proof {
                            lemma_operation_begins(config, changes, replies, rest, tally);
                            self.lemma_waits();
                        }
                        return Step::Call(call);
                    },
                    Action::Create => {
                        let planned = add_record_calls(
                            &self.operations[self.position].endpoint,
                            zone.as_str(),
                        );
                        proof {
                            assert(planned.deep_view() == planned_writes(
                                rest[0],
                                zone@,
                                Seq::empty(),
                            ));
                        }
                        if self.config.dry_run || planned.len() == 0 {
                            let ghost held = if config.dry_run {
                                planned.deep_view()
                            } else {
                                nothing
                            };
                            proof {
                                assert(planned.len() == 0 ==> planned.deep_view() =~= nothing);
                                lemma_operation_skipped(
                                    config,
                                    changes,
                                    replies,
                                    rest,
                                    tally,
                                    held,
                                    Ok(()),
                                );
                            }
                            enter(
                                &self.operations[self.position],
                                Ok(()),
                                &mut self.applied,
                                &mut self.errors,
                                &mut self.clean,
                            );
                            if self.config.dry_run {
                                hold_back(&mut self.withheld, planned);
                            }
                            assert(self.tally() == tally.record(rest[0], nothing, held, Ok(())));
                            None
                        } else {
                            self.zone = zone;
                            Some(planned)
                        }
                    },
                },
            };
            match planned {
                Some(writes) => {
                    let call = writes[0].duplicate();
                    self.listing = false;
                    self.writes = writes;
                    self.sent = 1;
                    self.heard = Ghost(none);
                    self.waiting = true;
                    proof {
                        lemma_operation_begins(config, changes, replies, rest, tally);
                        assert(all_went_well(none));
                        self.lemma_waits();
                    }
                    return Step::Call(call);
                },
                None => {
                    assert(forall|f: Seq<ProviderReplyView>| #[trigger]
                        between(config, changes, replies, rest.skip(1), self.tally(), f));
                    self.position = self.position + 1;
                    assert(self.rest() =~= rest.skip(1));
                },
            }
        }
        proof {
            let none = Seq::<ProviderReplyView>::empty();
            assert(self.between_always());
            assert(between(
                self.config@,
                self.changes@,
                self.replies@,
                self.rest(),
                self.tally(),
                none,
            ));
        }
        self.waiting = false;
        proof {
            let none = Seq::<ProviderReplyView>::empty();
            assert(between(config, changes, replies, self.rest(), self.tally(), none));
            assert(replies + none =~= replies);
        }
        Step::Finished(conclude(self.applied, &self.errors))
    }
}

impl Reconciler {
    /// Begins to apply `changes` under `config`.  The machine comes with
    /// the first thing to do: the first call of the batch, or the answer
    /// where the batch makes no call at all.
    pub fn new(config: Config, changes: Changes) -> (begun: (Reconciler, Step))
        ensures
            begun.0.wf(),
            begun.0.config() == config@,
            begun.0.changes() == changes@,
            begun.0.replies() == Seq::<ProviderReplyView>::empty(),
            begun.1@ == begun.0.run().next_step(),
    {
        let empty = changes.is_empty();
        let list = if empty {
            Vec::new()
        } else {
            operations(&changes)
        };
        let mut machine = Reconciler {
            config,
            operations: list,
            position: 0,
            zone: String::new(),
            listing: false,
            writes: Vec::new(),
            sent: 0,
            applied: 0,
            errors: Vec::new(),
            clean: true,
            withheld: Vec::new(),
            waiting: false,
            changes: Ghost(changes@),
            replies: Ghost(Seq::empty()),
            heard: Ghost(Seq::empty()),
            calls: Ghost(Seq::empty()),
        };
        proof {
            assert(machine.withheld.deep_view() =~= Seq::<ProviderCallView>::empty());
        }
        if empty {
            let answer = ApplyChangesResponse { message: copy_of("No changes to apply") };
            return (machine, Step::Finished(Ok(answer)));
        }
        proof {
            assert(machine.rest() =~= operations_of(changes@));
            assert(machine.tally() == Tally::start()) by {
                assert(machine.errors.deep_view() =~= Seq::<Seq<char>>::empty());
            }
            assert forall|f: Seq<ProviderReplyView>| #[trigger]
                between(
                    machine.config@,
                    machine.changes@,
                    machine.replies@,
                    machine.rest(),
                    machine.tally(),
                    f,
                ) by {
                assert(machine.replies@ + f =~= f);
            }
        }
        let step = machine.advance();
        (machine, step)
    }

    /// Takes the provider's reply to the call in flight, and says what
    /// there is to do next.
    pub fn resume(&mut self, reply: ProviderReply) -> (step: Step)
        requires
            old(self).wf(),
            old(self).run().outcome is None,
        ensures
            final(self).wf(),
            final(self).config() == old(self).config(),
            final(self).changes() == old(self).changes(),
            final(self).replies() == old(self).replies().push(reply@),
            step@ == final(self).run().next_step(),
    {
        let ghost config = self.config@;
        let ghost changes = self.changes@;
        let ghost replies = self.replies@;
        let ghost heard = self.heard@;
        let ghost later = self.rest().skip(1);
        let ghost tally = self.tally();
        let ghost current = self.current();
        let ghost made = self.made();
        let ghost zone = self.zone@;
        let ghost answer = reply@;
        let ghost was_listing = self.listing;
        let ghost writes_before = self.writes.deep_view();
        let ghost sent_before = self.sent as int;
        let ghost nothing = Seq::<ProviderCallView>::empty();
        proof {
            assert(self.waiting);
            assert(later =~= self.operations.deep_view().skip(self.position + 1));
            assert(current == self.operations.deep_view()[self.position as int]);
            assert(tally.withheld + nothing =~= tally.withheld);
        }
        self.replies = Ghost(replies.push(answer));
        self.heard = Ghost(heard.push(answer));
        let mut held: Vec<ProviderCall> = Vec::new();
        proof {
            assert(held.deep_view() =~= nothing);
        }
        let result = match reply {
            ProviderReply::Failed(e) => {
                proof {
                    assert forall|f: Seq<ProviderReplyView>| #[trigger]
                        op_run(config, current, heard.push(answer) + f) == (OpRun {
                            calls: made,
                            withheld: nothing,
                            result: Some(Err(e@)),
                        }) by {
                        let g = seq![answer] + f;
                        assert(heard + g =~= heard.push(answer) + f);
                        if was_listing {
                            assert(heard + g =~= g);
                        } else {
                            lemma_in_flight(
                                config,
                                current,
                                zone,
                                writes_before,
                                sent_before,
                                heard,
                                g,
                            );
                        }
                        assert(op_run(config, current, heard + g).calls =~= made);
                    }
                }
                Some(Err(e))
            },
            other => {
                if self.listing {
                    let planned = match other {
                        ProviderReply::Records(records) => remove_record_calls(
                            &self.operations[self.position].endpoint,
                            self.zone.as_str(),
                            &records,
                        ),
                        _ => {
                            let none: Vec<DnsRecord> = Vec::new();
                            assert(none.deep_view() =~= Seq::<DnsRecordView>::empty());
                            remove_record_calls(
                                &self.operations[self.position].endpoint,
                                self.zone.as_str(),
                                &none,
                            )
                        },
                    };
                    proof {
                        assert(planned.deep_view() == planned_writes(
                            current,
                            zone,
                            answer.records(),
                        ));
                    }
                    if self.config.dry_run {
                        held = planned;
                        self.writes = Vec::new();
                        assert(self.writes.deep_view() =~= nothing);
                    } else {
                        self.writes = planned;
                    }
                    self.listing = false;
                    self.sent = 0;
                }
                if self.sent == self.writes.len() {
                    proof {
                        assert forall|f: Seq<ProviderReplyView>| #[trigger]
                            op_run(config, current, heard.push(answer) + f) == (OpRun {
                                calls: made,
                                withheld: held.deep_view(),
                                result: Some(Ok(())),
                            }) by {
                            let g = seq![answer] + f;
                            assert(heard + g =~= heard.push(answer) + f);
                            if was_listing {
                                assert(heard + g =~= g);
                                assert(self.writes.deep_view() =~= nothing);
                            } else {
                                lemma_in_flight(
                                    config,
                                    current,
                                    zone,
                                    writes_before,
                                    sent_before,
                                    heard,
                                    g,
                                );
                            }
                            assert(op_run(config, current, heard + g).calls =~= made);
                        }
                    }
                    Some(Ok(()))
                } else {
                    None
                }
            },
        };
        match result {
            Some(result) => {
                let ghost kept = held.deep_view();
                proof {
                    lemma_operation_ends(
                        config,
                        changes,
                        replies,
                        later,
                        tally,
                        current,
                        heard,
                        answer,
                        made,
                        kept,
                        result_view(result),
                    );
                }
                enter(
                    &self.operations[self.position],
                    result,
                    &mut self.applied,
                    &mut self.errors,
                    &mut self.clean,
                );
                hold_back(&mut self.withheld, held);
                self.calls = Ghost(tally.calls + made);
                assert(self.tally() == tally.record(current, made, kept, result_view(result)));
                self.position = self.position + 1;
                assert(self.rest() =~= later);
                self.advance()
            },
            None => {
                self.sent = self.sent + 1;
                let call = self.writes[self.sent - 1].duplicate();
                proof {
                    lemma_operation_goes_on(
                        config,
                        changes,
                        replies,
                        later,
                        tally,
                        current,
                        heard,
                        answer,
                    );
                    assert(all_went_well(heard.push(answer)));
                    assert(self.stage());
                    self.lemma_waits();
                }
                Step::Call(call)
            },
        }
    }
}

} // verus!
