//! The snapshot of a period: the usage of every meter of an account, priced and added up.
//!
//! A request whose close is finished already is answered from what was kept of it, before the
//! account is looked at: what has become of the account since then does not matter to it. Any other
//! request goes on to the account, also one that comes under a key that another has used; storage
//! refuses that one in the end.
//!
//! A snapshot is taken in steps, one usage window at a time, and becomes a period only once every
//! meter has been read.

use vstd::prelude::*;

use crate::decimal::{
    i64_to_text, integer_text, integer_value, law_written_integer_reads_back, line_amount,
    parse_integer, total_amount,
};
use crate::digest::{delivery_id_text, request_hash, sha256_digest, stable_delivery_id};
use crate::error::{
    is_storage_error, storage_to_plugin, BillingError, DomainFailure, PluginError, Reply,
    RuntimeFailure, StorageError, StorageErrorOf,
};
use crate::input::ClosePeriod;
use crate::model::{
    models, AccountStatus, AccountView, CommandKey, CommandKeyModel, CommandKeyOf, MeterModel,
    MeterView, Operation, PeriodView, Response, ResponseOf, SnapshotLine, SnapshotLineModel,
    SnapshotLineOf,
};
use crate::requests::{ClosePeriodRequest, CloseWindow};
use crate::text::Text;

verus! {

/// The usage of one meter within a window, and the revision of the aggregate that it was read at.
#[derive(Debug, PartialEq, Eq)]
pub struct UsageOf<T> {
    pub quantity: T,
    pub aggregate_revision: i64,
}

pub type Usage = UsageOf<String>;

pub type UsageModel = UsageOf<Text>;

impl View for UsageOf<String> {
    type V = UsageModel;

    open spec fn view(&self) -> UsageModel {
        UsageOf { quantity: self.quantity@, aggregate_revision: self.aggregate_revision }
    }
}

/// A usage window to be read.
#[derive(Debug, PartialEq, Eq)]
pub struct ReadUsageWindowRequest {
    pub meter: String,
    pub scope_id: String,
    pub scope_kind: String,
    pub subject: String,
    pub window_end: String,
    pub window_start: String,
}

/// The line of a mapping: its usage, and quantity times price as an exact whole number.
pub open spec fn snapshot_line(
    period_id: Text,
    meter: MeterModel,
    usage: UsageModel,
) -> SnapshotLineModel {
    SnapshotLineOf {
        delivery_id: delivery_id_text(period_id, meter.mapping_id),
        mapping_id: meter.mapping_id,
        source_meter: meter.source_meter,
        sink_meter: meter.sink_meter,
        quantity: usage.quantity,
        usage_revision: usage.aggregate_revision,
        unit_price_minor: meter.unit_price_minor,
        amount_minor: integer_text(
            integer_value(usage.quantity)->0 * integer_value(meter.unit_price_minor)->0,
        ),
    }
}

/// The lines of the mappings, each with the usage that was read for it.
pub open spec fn snapshot_lines(
    period_id: Text,
    meters: Seq<MeterModel>,
    usages: Seq<UsageModel>,
) -> Seq<SnapshotLineModel> {
    Seq::new(usages.len(), |i: int| snapshot_line(period_id, meters[i], usages[i]))
}

/// The sum of the amounts of the lines.
pub open spec fn total_of(lines: Seq<SnapshotLineModel>) -> int
    decreases lines.len(),
{
    if lines.len() == 0 {
        0
    } else {
        total_of(lines.drop_last()) + integer_value(lines.last().amount_minor)->0
    }
}

/// The sum of quantity times price over the mappings.
pub open spec fn priced_usage(meters: Seq<MeterModel>, usages: Seq<UsageModel>) -> int
    decreases usages.len(),
{
    if usages.len() == 0 {
        0
    } else {
        priced_usage(meters, usages.drop_last()) + integer_value(usages.last().quantity)->0
            * integer_value(meters[usages.len() - 1].unit_price_minor)->0
    }
}

/// A snapshot's total is the sum of quantity times price, exactly, however large the numbers are.
pub proof fn law_total_is_exact(period_id: Text, meters: Seq<MeterModel>, usages: Seq<UsageModel>)
    requires
        usages.len() <= meters.len(),
    ensures
        total_of(snapshot_lines(period_id, meters, usages)) == priced_usage(meters, usages),
    decreases usages.len(),
{
    let lines = snapshot_lines(period_id, meters, usages);
    if usages.len() > 0 {
        let front = usages.drop_last();
        law_total_is_exact(period_id, meters, front);
        assert(lines.drop_last() =~= snapshot_lines(period_id, meters, front));
        law_written_integer_reads_back(
            integer_value(usages.last().quantity)->0 * integer_value(
                meters[usages.len() - 1].unit_price_minor,
            )->0,
        );
    }
}

/// Reading one more window adds one more line, with the quantity and the revision that were read:
/// a complete snapshot holds the usage of every mapping.
pub proof fn law_snapshot_records_every_usage(
    period_id: Text,
    meters: Seq<MeterModel>,
    usages: Seq<UsageModel>,
    usage: UsageModel,
)
    requires
        usages.len() < meters.len(),
    ensures
        snapshot_lines(period_id, meters, usages.push(usage)) == snapshot_lines(
            period_id,
            meters,
            usages,
        ).push(snapshot_line(period_id, meters[usages.len() as int], usage)),
        forall|i: int|
            0 <= i < usages.len() ==> (#[trigger] snapshot_lines(
                period_id,
                meters,
                usages,
            )[i]).quantity == usages[i].quantity && snapshot_lines(
                period_id,
                meters,
                usages,
            )[i].usage_revision == usages[i].aggregate_revision,
{
    assert(snapshot_lines(period_id, meters, usages.push(usage)) =~= snapshot_lines(
        period_id,
        meters,
        usages,
    ).push(snapshot_line(period_id, meters[usages.len() as int], usage)));
}

/// A snapshot as far as it is taken.
pub struct SnapshotModel {
    pub organization_id: Text,
    pub account_id: Text,
    pub period_id: Text,
    pub window_start: Text,
    pub window_end: Text,
    pub idempotency_key: Text,
    pub window: CloseWindow,
    pub meters: Seq<MeterModel>,
    pub lines: Seq<SnapshotLineModel>,
}

#[derive(Debug)]
struct Snapshot {
    organization_id: String,
    account_id: String,
    period_id: String,
    window_start: String,
    window_end: String,
    idempotency_key: String,
    window: CloseWindow,
    meters: Vec<MeterView>,
    lines: Vec<SnapshotLine>,
    total: String,
}

impl Snapshot {
    spec fn model(&self) -> SnapshotModel {
        SnapshotModel {
            organization_id: self.organization_id@,
            account_id: self.account_id@,
            period_id: self.period_id@,
            window_start: self.window_start@,
            window_end: self.window_end@,
            idempotency_key: self.idempotency_key@,
            window: self.window,
            meters: models(self.meters@),
            lines: models(self.lines@),
        }
    }

    spec fn wf(&self) -> bool {
        &&& self.lines@.len() <= self.meters@.len()
        &&& self.total@ == integer_text(total_of(models(self.lines@)))
    }
}

/// A snapshot with a usage window still to be read.
#[derive(Debug)]
pub struct UsageRead {
    snapshot: Snapshot,
}

/// A snapshot of all meters.
#[derive(Debug)]
pub struct CompleteSnapshot {
    snapshot: Snapshot,
}

/// What has to be done next for a snapshot.
#[derive(Debug)]
pub enum SnapshotStep {
    Read(UsageRead),
    Complete(CompleteSnapshot),
}

impl UsageRead {
    #[verifier::type_invariant]
    spec fn inv(self) -> bool {
        self.snapshot.wf() && self.snapshot.lines@.len() < self.snapshot.meters@.len()
    }
}

impl CompleteSnapshot {
    #[verifier::type_invariant]
    spec fn inv(self) -> bool {
        self.snapshot.wf() && self.snapshot.lines@.len() == self.snapshot.meters@.len()
    }
}

impl View for UsageRead {
    type V = SnapshotModel;

    closed spec fn view(&self) -> SnapshotModel {
        self.snapshot.model()
    }
}

impl View for CompleteSnapshot {
    type V = SnapshotModel;

    closed spec fn view(&self) -> SnapshotModel {
        self.snapshot.model()
    }
}

/// `step` goes on from `model`: with the next meter, or to the end once all are read.
pub open spec fn goes_on(step: SnapshotStep, model: SnapshotModel) -> bool {
    match step {
        SnapshotStep::Read(read) => read@ == model && model.lines.len() < model.meters.len(),
        SnapshotStep::Complete(complete) => complete@ == model && model.lines.len()
            == model.meters.len(),
    }
}

fn go_on(snapshot: Snapshot) -> (r: SnapshotStep)
    requires
        snapshot.wf(),
    ensures
        goes_on(r, snapshot.model()),
{
    if snapshot.lines.len() < snapshot.meters.len() {
        SnapshotStep::Read(UsageRead { snapshot })
    } else {
        SnapshotStep::Complete(CompleteSnapshot { snapshot })
    }
}

/// Under what the answer to the request is kept: caller, actor, operation and idempotency key.
pub open spec fn requested_close_key(
    request: ClosePeriodRequest,
    caller: Text,
    actor: Text,
) -> CommandKeyModel {
    CommandKeyOf {
        caller,
        actor,
        operation: Operation::ClosePeriod,
        idempotency_key: request.idempotency_key@,
    }
}

/// Under what the answer to the request is kept, and the fingerprint of the request, whose wire
/// bytes are `wire`.
pub fn close_command(
    request: &ClosePeriodRequest,
    caller: &str,
    actor: &str,
    wire: &[u8],
) -> (r: (CommandKey, Vec<u8>))
    ensures
        r.0@ == requested_close_key(*request, caller@, actor@),
        r.1@ == sha256_digest(wire@),
{
    (
        CommandKeyOf {
            caller: caller.to_owned(),
            actor: actor.to_owned(),
            operation: Operation::ClosePeriod,
            idempotency_key: request.idempotency_key.clone(),
        },
        request_hash(wire),
    )
}

/// A request to close that no answer is kept of.
#[derive(Debug)]
pub struct Unanswered {
    window: CloseWindow,
}

impl Unanswered {
    /// The window that is to be closed.
    pub closed spec fn window(self) -> CloseWindow {
        self.window
    }
}

/// What has to be done next for a close.
#[derive(Debug)]
pub enum CloseStep {
    /// The request was answered already, and this is its answer.
    Answered(PeriodView),
    /// The account is to be looked at, and a snapshot to be taken.
    Snapshot(Unanswered),
}

/// Takes what is kept of the request. One that was answered already is answered alike. One that
/// was not goes on to the account, be its key free or taken by another request.
pub fn begin_close<R>(
    window: CloseWindow,
    kept: Result<Option<Response>, StorageError>,
) -> (r: Result<CloseStep, PluginError<BillingError, R>>)
    ensures
        match kept {
            Err(StorageErrorOf::Domain(DomainFailure::IdempotencyConflict)) => r matches Ok(
                CloseStep::Snapshot(open),
            ) && open.window() == window,
            Err(error) => r is Err && is_storage_error(r->Err_0, error@),
            Ok(None) => r matches Ok(CloseStep::Snapshot(open)) && open.window() == window,
            Ok(Some(ResponseOf::Period(view))) => r == Ok::<
                CloseStep,
                PluginError<BillingError, R>,
            >(CloseStep::Answered(view)),
            Ok(Some(_)) => r is Err && is_storage_error(r->Err_0, StorageErrorOf::Serialization),
        },
{
    match kept {
        Err(StorageErrorOf::Domain(DomainFailure::IdempotencyConflict)) => Ok(
            CloseStep::Snapshot(Unanswered { window }),
        ),
        Err(error) => Err(storage_to_plugin(&error)),
        Ok(None) => Ok(CloseStep::Snapshot(Unanswered { window })),
        Ok(Some(ResponseOf::Period(view))) => Ok(CloseStep::Answered(view)),
        Ok(Some(_)) => {
            let error: StorageError = StorageErrorOf::Serialization;
            Err(storage_to_plugin(&error))
        },
    }
}

/// The snapshot of the account's meters before any has been read.
pub open spec fn empty_snapshot(
    request: ClosePeriodRequest,
    window: CloseWindow,
    meters: Seq<MeterModel>,
) -> SnapshotModel {
    SnapshotModel {
        organization_id: request.organization_id@,
        account_id: request.account_id@,
        period_id: request.period_id@,
        window_start: request.period_start@,
        window_end: request.period_end@,
        idempotency_key: request.idempotency_key@,
        window,
        meters,
        lines: Seq::empty(),
    }
}

/// Starts the snapshot of an account for a request that is not answered yet. The account has to be
/// active and to stand, as it is shown, at the expected revision.
pub fn begin_snapshot(
    request: &ClosePeriodRequest,
    open: Unanswered,
    account: AccountView,
) -> (r: Result<SnapshotStep, BillingError>)
    ensures
        if account.status != AccountStatus::Active {
            r == Err::<SnapshotStep, BillingError>(BillingError::AccountDisabled)
        } else if account.revision@ != request.expected_account_revision@ {
            r == Err::<SnapshotStep, BillingError>(BillingError::RevisionConflict)
        } else {
            r is Ok && goes_on(
                r->Ok_0,
                empty_snapshot(*request, open.window(), models(account.meters@)),
            )
        },
{
    if account.status != AccountStatus::Active {
        return Err(BillingError::AccountDisabled);
    }
    if account.revision != request.expected_account_revision {
        return Err(BillingError::RevisionConflict);
    }
    let lines: Vec<SnapshotLine> = Vec::new();
    let total = i64_to_text(0);
    assert(models(lines@) =~= Seq::empty());
    Ok(
        go_on(
            Snapshot {
                organization_id: request.organization_id.clone(),
                account_id: request.account_id.clone(),
                period_id: request.period_id.clone(),
                window_start: request.period_start.clone(),
                window_end: request.period_end.clone(),
                idempotency_key: request.idempotency_key.clone(),
                window: open.window,
                meters: account.meters,
                lines,
                total,
            },
        ),
    )
}

impl UsageRead {
    /// The usage window to be read: that of the next meter, over the whole period.
    pub fn request(&self) -> (r: ReadUsageWindowRequest)
        ensures
            ({
                let meter = self@.meters[self@.lines.len() as int];
                &&& r.meter@ == meter.source_meter
                &&& r.scope_id@ == meter.source_scope_id
                &&& r.scope_kind@ == meter.source_scope_kind
                &&& r.subject@ == meter.source_subject
                &&& r.window_start@ == self@.window_start
                &&& r.window_end@ == self@.window_end
            }),
    {
        proof {
            use_type_invariant(self);
        }
        let at: usize = self.snapshot.lines.len();
        let meter = &self.snapshot.meters[at];
        assert(self@.meters[at as int] == meter@);
        ReadUsageWindowRequest {
            meter: meter.source_meter.clone(),
            scope_id: meter.source_scope_id.clone(),
            scope_kind: meter.source_scope_kind.clone(),
            subject: meter.source_subject.clone(),
            window_end: self.snapshot.window_end.clone(),
            window_start: self.snapshot.window_start.clone(),
        }
    }

    /// Takes what the usage meter replied into the snapshot.
    pub fn answered<R>(self, reply: Reply<Usage, R>) -> (r: Result<
        SnapshotStep,
        PluginError<BillingError, R>,
    >)
        ensures
            ({
                let meter = self@.meters[self@.lines.len() as int];
                match reply {
                    Reply::Rejected => r == Err::<SnapshotStep, PluginError<BillingError, R>>(
                        PluginError::Domain(BillingError::SourceRejected),
                    ),
                    Reply::Failed(own) => r == Err::<SnapshotStep, PluginError<BillingError, R>>(
                        PluginError::Runtime(RuntimeFailure::Dependency(own)),
                    ),
                    Reply::Answered(usage) => if integer_value(usage.quantity@) is None {
                        r == Err::<SnapshotStep, PluginError<BillingError, R>>(
                            PluginError::Domain(BillingError::SourceRejected),
                        )
                    } else if integer_value(meter.unit_price_minor) is None {
                        r == Err::<SnapshotStep, PluginError<BillingError, R>>(
                            PluginError::Domain(BillingError::InvalidRequest),
                        )
                    } else {
                        r is Ok && goes_on(
                            r->Ok_0,
                            SnapshotModel {
                                lines: self@.lines.push(
                                    snapshot_line(self@.period_id, meter, usage@),
                                ),
                                ..self@
                            },
                        )
                    },
                }
            }),
    {
        proof {
            use_type_invariant(&self);
        }
        let usage = match reply {
            Reply::Answered(usage) => usage,
            Reply::Rejected => {
                return Err(PluginError::Domain(BillingError::SourceRejected));
            },
            Reply::Failed(own) => {
                return Err(PluginError::Runtime(RuntimeFailure::Dependency(own)));
            },
        };
        let ghost before = self@;
        let mut snapshot = self.snapshot;
        let at: usize = snapshot.lines.len();
        let meter = &snapshot.meters[at];
        let ghost mapping = meter@;
        assert(before.meters[at as int] == mapping);
        if parse_integer(usage.quantity.as_str()).is_none() {
            return Err(PluginError::Domain(BillingError::SourceRejected));
        }
        let amount = match line_amount(usage.quantity.as_str(), meter.unit_price_minor.as_str()) {
            Some(amount) => amount,
            None => {
                return Err(PluginError::Domain(BillingError::InvalidRequest));
            },
        };
        let ghost lines = models(snapshot.lines@);
        let ghost product = integer_value(usage.quantity@)->0 * integer_value(
            mapping.unit_price_minor,
        )->0;
        proof {
            law_written_integer_reads_back(product);
            law_written_integer_reads_back(total_of(lines));
        }
        let total = match total_amount(snapshot.total.as_str(), amount.as_str()) {
            Some(total) => total,
            None => {
                return Err(PluginError::Domain(BillingError::InvalidRequest));
            },
        };
        let line: SnapshotLine = SnapshotLineOf {
            delivery_id: stable_delivery_id(
                snapshot.period_id.as_str(),
                meter.mapping_id.as_str(),
            ),
            mapping_id: meter.mapping_id.clone(),
            source_meter: meter.source_meter.clone(),
            sink_meter: meter.sink_meter.clone(),
            quantity: usage.quantity,
            usage_revision: usage.aggregate_revision,
            unit_price_minor: meter.unit_price_minor.clone(),
            amount_minor: amount,
        };
        let ghost added = line@;
        snapshot.lines.push(line);
        snapshot.total = total;
        proof {
            assert(models(snapshot.lines@) =~= lines.push(added));
            assert(lines.push(added).drop_last() =~= lines);
        }
        Ok(go_on(snapshot))
    }
}

/// `input` is what storage is given for the snapshot, closed by this caller and actor.
pub open spec fn close_input(
    input: ClosePeriod,
    snapshot: SnapshotModel,
    caller: Text,
    actor: Text,
    wire: Seq<u8>,
) -> bool {
    &&& input.caller@ == caller
    &&& input.actor@ == actor
    &&& input.organization_id@ == snapshot.organization_id
    &&& input.account_id@ == snapshot.account_id
    &&& input.period_id@ == snapshot.period_id
    &&& input.period_start == snapshot.window.period_start
    &&& input.period_end == snapshot.window.period_end
    &&& input.expected_account_revision == snapshot.window.expected_account_revision
    &&& input.idempotency_key@ == snapshot.idempotency_key
    &&& input.request_hash@ == sha256_digest(wire)
    &&& input.total_amount_minor@ == integer_text(total_of(snapshot.lines))
    &&& models(input.lines@) == snapshot.lines
}

impl CompleteSnapshot {
    /// What storage is given for the snapshot; the wire bytes of the request are `wire`.
    pub fn close(self, caller: String, actor: String, wire: &[u8]) -> (r: ClosePeriod)
        ensures
            close_input(r, self@, caller@, actor@, wire@),
    {
        proof {
            use_type_invariant(&self);
        }
        let snapshot = self.snapshot;
        ClosePeriod {
            caller,
            actor,
            organization_id: snapshot.organization_id,
            account_id: snapshot.account_id,
            period_id: snapshot.period_id,
            period_start: snapshot.window.period_start,
            period_end: snapshot.window.period_end,
            expected_account_revision: snapshot.window.expected_account_revision,
            idempotency_key: snapshot.idempotency_key,
            request_hash: request_hash(wire),
            total_amount_minor: snapshot.total,
            lines: snapshot.lines,
        }
    }
}

/// The line of a mapping holds the mapping's id, meters and price and the usage that was read,
/// under the delivery id of the period and the mapping; its amount is quantity times price.
pub proof fn law_line_is_usage_times_price(period_id: Text, meter: MeterModel, usage: UsageModel)
    ensures
        ({
            let line = snapshot_line(period_id, meter, usage);
            &&& line.delivery_id == delivery_id_text(period_id, meter.mapping_id)
            &&& line.mapping_id == meter.mapping_id
            &&& line.source_meter == meter.source_meter
            &&& line.sink_meter == meter.sink_meter
            &&& line.quantity == usage.quantity
            &&& line.usage_revision == usage.aggregate_revision
            &&& line.unit_price_minor == meter.unit_price_minor
            &&& integer_value(usage.quantity) matches Some(quantity) ==> (integer_value(
                meter.unit_price_minor,
            ) matches Some(price) ==> integer_value(line.amount_minor) == Some(quantity * price))
        }),
{
    law_written_integer_reads_back(
        integer_value(usage.quantity)->0 * integer_value(meter.unit_price_minor)->0,
    );
}

/// A usage is spoken of by what its fields hold.
pub proof fn law_usages_are_spoken_of(usage: Usage)
    ensures
        usage@.quantity == usage.quantity@,
        usage@.aggregate_revision == usage.aggregate_revision,
{
}

/// A snapshot begins with what the request says, with the window that it was checked for, and with
/// no line yet.
pub proof fn law_snapshot_begins_with_the_request(
    request: ClosePeriodRequest,
    window: CloseWindow,
    meters: Seq<MeterModel>,
)
    ensures
        ({
            let snapshot = empty_snapshot(request, window, meters);
            &&& snapshot.organization_id == request.organization_id@
            &&& snapshot.account_id == request.account_id@
            &&& snapshot.period_id == request.period_id@
            &&& snapshot.window_start == request.period_start@
            &&& snapshot.window_end == request.period_end@
            &&& snapshot.idempotency_key == request.idempotency_key@
            &&& snapshot.window.period_start == window.period_start
            &&& snapshot.window.period_end == window.period_end
            &&& snapshot.window.expected_account_revision == window.expected_account_revision
            &&& snapshot.meters == meters
            &&& snapshot.lines.len() == 0
        }),
{
}

/// A step goes on from a snapshot that is as it was told: to the next meter while there is one,
/// and to the end once every meter has its line.
pub proof fn law_steps_go_through_all_meters(step: SnapshotStep, model: SnapshotModel)
    requires
        goes_on(step, model),
        model.lines.len() <= model.meters.len(),
    ensures
        step is Read <==> model.lines.len() < model.meters.len(),
        step is Complete <==> model.lines.len() == model.meters.len(),
        step matches SnapshotStep::Read(read) ==> read@ == model,
        step matches SnapshotStep::Complete(complete) ==> complete@ == model,
{
}

/// What storage is handed for a snapshot is what the snapshot holds, by this caller and actor,
/// under the request's key and fingerprint, with a total that the amounts of the lines add up to.
pub proof fn law_closed_snapshot_is_handed_over(
    input: ClosePeriod,
    snapshot: SnapshotModel,
    caller: Text,
    actor: Text,
    wire: Seq<u8>,
)
    requires
        close_input(input, snapshot, caller, actor, wire),
    ensures
        input.caller@ == caller,
        input.actor@ == actor,
        input.organization_id@ == snapshot.organization_id,
        input.account_id@ == snapshot.account_id,
        input.period_id@ == snapshot.period_id,
        input.period_start == snapshot.window.period_start,
        input.period_end == snapshot.window.period_end,
        input.expected_account_revision == snapshot.window.expected_account_revision,
        input.idempotency_key@ == snapshot.idempotency_key,
        input.request_hash@ == sha256_digest(wire),
        models(input.lines@) == snapshot.lines,
        integer_value(input.total_amount_minor@) == Some(total_of(snapshot.lines)),
{
    law_written_integer_reads_back(total_of(snapshot.lines));
}

/// The answer to a request is looked up by the caller, the actor, the operation and the request's
/// idempotency key.
pub proof fn law_close_is_looked_up_by_its_key(
    request: ClosePeriodRequest,
    caller: Text,
    actor: Text,
)
    ensures
        requested_close_key(request, caller, actor).caller == caller,
        requested_close_key(request, caller, actor).actor == actor,
        requested_close_key(request, caller, actor).operation == Operation::ClosePeriod,
        requested_close_key(request, caller, actor).idempotency_key == request.idempotency_key@,
{
}

} // verus!
