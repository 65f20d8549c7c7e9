//! The stored state as mathematics: tables by key, and what each operation makes of them.

use vstd::prelude::*;

use crate::decimal::integer_text;
use crate::error::{DomainFailure, StorageErrorOf, StorageFailure};
use crate::input::{ClosePeriod, Completion, PutAccount, ResolveDelivery};
use crate::instant::{instant_text, kept_instant};
use crate::model::{
    models, optional_text, AccountModel, AccountRowOf, AccountStatus, AccountViewModel,
    AccountViewOf, CommandKeyModel, CommandKeyOf, CommandModel, CommandRowOf, DeliveryClaimModel,
    DeliveryClaimOf, DeliveryStatus, DeliveryViewModel, DeliveryViewOf, LineModel, LineRowOf,
    LineViewModel, LineViewOf, MeterView, Operation, PeriodModel, PeriodRowOf, PeriodStatus,
    PeriodViewModel, PeriodViewOf, Resolution, ResponseModel, ResponseOf, SnapshotLine,
    SnapshotLineModel,
};
use crate::order::{
    in_order, law_text_order_is_irreflexive, law_text_order_is_total, law_text_order_is_transitive,
    text_less,
};
use crate::text::Text;

verus! {

/// Accounts and periods by id, finished commands by key.
#[verifier::ext_equal]
pub struct Tables {
    pub accounts: Map<Text, AccountModel>,
    pub periods: Map<Text, PeriodModel>,
    pub commands: Map<CommandKeyModel, CommandModel>,
}

pub open spec fn refused(failure: DomainFailure) -> StorageFailure {
    StorageErrorOf::Domain(failure)
}

pub open spec fn database_failure(operation: Text) -> StorageFailure {
    StorageErrorOf::Database { operation }
}

// What is shown.

/// An account as it is shown; it cannot be shown if one of its instants has no text.
pub open spec fn account_shown(row: AccountModel) -> Result<AccountViewModel, StorageFailure> {
    match (instant_text(row.created_at), instant_text(row.updated_at)) {
        (Err(message), _) => Err(StorageErrorOf::InvalidStored(message)),
        (Ok(_), Err(message)) => Err(StorageErrorOf::InvalidStored(message)),
        (Ok(created_at), Ok(updated_at)) => Ok(
            AccountViewOf {
                organization_id: row.organization_id,
                account_id: row.account_id,
                scope_kind: row.scope_kind,
                scope_id: row.scope_id,
                subject: row.subject,
                currency: row.currency,
                status: row.status,
                revision: integer_text(row.revision as int),
                created_at,
                updated_at,
                meters: row.meters,
            },
        ),
    }
}

pub open spec fn line_shown(row: LineModel) -> LineViewModel {
    LineViewOf {
        delivery_id: row.delivery_id,
        mapping_id: row.mapping_id,
        source_meter: row.source_meter,
        sink_meter: row.sink_meter,
        quantity: row.quantity,
        usage_revision: row.usage_revision,
        unit_price_minor: row.unit_price_minor,
        amount_minor: row.amount_minor,
        status: row.status,
        attempts: row.attempts as i64,
        provider_reference: row.provider_reference,
        failure_code: row.failure_code,
    }
}

pub open spec fn lines_shown(rows: Seq<LineModel>) -> Seq<LineViewModel> {
    Seq::new(rows.len(), |i: int| line_shown(rows[i]))
}

/// A period as it is shown; it cannot be shown if one of its instants has no text.
pub open spec fn period_shown(row: PeriodModel) -> Result<PeriodViewModel, StorageFailure> {
    match (
        instant_text(row.period_start),
        instant_text(row.period_end),
        instant_text(row.created_at),
    ) {
        (Err(message), _, _) => Err(StorageErrorOf::InvalidStored(message)),
        (Ok(_), Err(message), _) => Err(StorageErrorOf::InvalidStored(message)),
        (Ok(_), Ok(_), Err(message)) => Err(StorageErrorOf::InvalidStored(message)),
        (Ok(period_start), Ok(period_end), Ok(created_at)) => Ok(
            PeriodViewOf {
                organization_id: row.organization_id,
                account_id: row.account_id,
                period_id: row.period_id,
                period_start,
                period_end,
                currency: row.currency,
                status: row.status,
                account_revision: integer_text(row.account_revision as int),
                total_amount_minor: row.total_amount_minor,
                created_at,
                lines: lines_shown(row.lines),
            },
        ),
    }
}

/// A line of a period, as the delivery that it is.
pub open spec fn delivery_shown(period: PeriodModel, line: LineModel) -> Result<
    DeliveryViewModel,
    StorageFailure,
> {
    match instant_text(line.updated_at) {
        Err(message) => Err(StorageErrorOf::InvalidStored(message)),
        Ok(updated_at) => Ok(
            DeliveryViewOf {
                organization_id: period.organization_id,
                account_id: period.account_id,
                period_id: period.period_id,
                delivery_id: line.delivery_id,
                mapping_id: line.mapping_id,
                status: line.status,
                attempts: line.attempts as i64,
                provider_reference: line.provider_reference,
                failure_code: line.failure_code,
                updated_at,
            },
        ),
    }
}

// Commands.

/// The answer kept under `key`: none yet, the kept one for the same request, or a conflict.
pub open spec fn replayed(t: Tables, key: CommandKeyModel, request_hash: Seq<u8>) -> Result<
    Option<ResponseModel>,
    StorageFailure,
> {
    if !t.commands.contains_key(key) {
        Ok(None)
    } else if t.commands[key].request_hash != request_hash {
        Err(refused(DomainFailure::IdempotencyConflict))
    } else {
        Ok(Some(t.commands[key].response))
    }
}

pub open spec fn with_command(
    t: Tables,
    key: CommandKeyModel,
    request_hash: Seq<u8>,
    response: ResponseModel,
) -> Tables {
    Tables {
        commands: t.commands.insert(key, CommandRowOf { key, request_hash, response }),
        ..t
    }
}

// Accounts.

pub open spec fn put_key(input: PutAccount) -> CommandKeyModel {
    CommandKeyOf {
        caller: input.caller@,
        actor: input.actor@,
        operation: Operation::PutAccount,
        idempotency_key: input.idempotency_key@,
    }
}

/// The account row that a put writes: a first revision where there is none and none was expected,
/// else the next revision of the same organization's account at the expected revision.
pub open spec fn put_row(t: Tables, input: PutAccount, now: i128) -> Result<
    AccountModel,
    StorageFailure,
> {
    if !t.accounts.contains_key(input.account_id@) {
        if input.expected_revision == 0 {
            Ok(
                AccountRowOf {
                    organization_id: input.organization_id@,
                    account_id: input.account_id@,
                    scope_kind: input.scope_kind@,
                    scope_id: input.scope_id@,
                    subject: input.subject@,
                    currency: input.currency@,
                    status: input.status,
                    revision: 1,
                    created_at: now,
                    updated_at: now,
                    meters: in_order::<MeterView>(models(input.meters@)),
                },
            )
        } else {
            Err(refused(DomainFailure::RevisionConflict))
        }
    } else {
        let current = t.accounts[input.account_id@];
        if current.organization_id != input.organization_id@ {
            Err(refused(DomainFailure::NotFound))
        } else if current.revision != input.expected_revision {
            Err(refused(DomainFailure::RevisionConflict))
        } else if current.revision == i64::MAX {
            Err(database_failure("update billing account"@))
        } else {
            Ok(
                AccountRowOf {
                    scope_kind: input.scope_kind@,
                    scope_id: input.scope_id@,
                    subject: input.subject@,
                    currency: input.currency@,
                    status: input.status,
                    revision: (current.revision + 1) as i64,
                    updated_at: now,
                    meters: in_order::<MeterView>(models(input.meters@)),
                    ..current
                },
            )
        }
    }
}

/// What a put leaves and answers.
pub open spec fn put_outcome(t: Tables, input: PutAccount, now: i128) -> Result<
    (Tables, AccountViewModel),
    StorageFailure,
> {
    match replayed(t, put_key(input), input.request_hash@) {
        Err(failure) => Err(failure),
        Ok(Some(ResponseOf::Account(view))) => Ok((t, view)),
        Ok(Some(_)) => Err(StorageErrorOf::Serialization),
        Ok(None) => match put_row(t, input, now) {
            Err(failure) => Err(failure),
            Ok(row) => match account_shown(row) {
                Err(failure) => Err(failure),
                Ok(view) => Ok(
                    (
                        with_command(
                            Tables { accounts: t.accounts.insert(row.account_id, row), ..t },
                            put_key(input),
                            input.request_hash@,
                            ResponseOf::Account(view),
                        ),
                        view,
                    ),
                ),
            },
        },
    }
}

/// The organization's account, as it is shown.
pub open spec fn account_outcome(t: Tables, organization_id: Text, account_id: Text) -> Result<
    AccountViewModel,
    StorageFailure,
> {
    if t.accounts.contains_key(account_id) && t.accounts[account_id].organization_id
        == organization_id {
        account_shown(t.accounts[account_id])
    } else {
        Err(refused(DomainFailure::NotFound))
    }
}

// Periods.

pub open spec fn close_key(input: ClosePeriod) -> CommandKeyModel {
    CommandKeyOf {
        caller: input.caller@,
        actor: input.actor@,
        operation: Operation::ClosePeriod,
        idempotency_key: input.idempotency_key@,
    }
}

/// Two windows share time, the end of each being outside it.
pub open spec fn windows_overlap(start_a: i128, end_a: i128, start_b: i128, end_b: i128) -> bool {
    start_a < end_b && end_a > start_b
}

/// A period of the account shares time with the window.
pub open spec fn account_overlaps(
    t: Tables,
    account_id: Text,
    period_start: i128,
    period_end: i128,
) -> bool {
    exists|id: Text| #[trigger]
        t.periods.contains_key(id) && t.periods[id].account_id == account_id && windows_overlap(
            t.periods[id].period_start,
            t.periods[id].period_end,
            period_start,
            period_end,
        )
}

/// There is a line `i` in the period `id`.
pub open spec fn line_at(t: Tables, id: Text, i: int) -> bool {
    t.periods.contains_key(id) && 0 <= i < t.periods[id].lines.len()
}

/// The line `i` of the period `id`.
pub open spec fn line(t: Tables, id: Text, i: int) -> LineModel {
    t.periods[id].lines[i]
}

/// A line with this delivery id is stored.
pub open spec fn delivery_stored(t: Tables, delivery_id: Text) -> bool {
    exists|id: Text, i: int| #[trigger]
        line_at(t, id, i) && line(t, id, i).delivery_id == delivery_id
}

/// A delivery id of the lines is taken, by a stored line or by another of them.
pub open spec fn delivery_ids_taken(t: Tables, lines: Seq<SnapshotLineModel>) -> bool {
    ||| exists|i: int| 0 <= i < lines.len() && delivery_stored(t, #[trigger] lines[i].delivery_id)
    ||| exists|i: int, j: int|
        0 <= i < j < lines.len() && (#[trigger] lines[i]).delivery_id == (
        #[trigger] lines[j]).delivery_id
}

/// The line as it is first stored: to be delivered, not yet tried.
pub open spec fn fresh_line(line: SnapshotLineModel, now: i128) -> LineModel {
    LineRowOf {
        delivery_id: line.delivery_id,
        mapping_id: line.mapping_id,
        source_meter: line.source_meter,
        sink_meter: line.sink_meter,
        quantity: line.quantity,
        usage_revision: line.usage_revision,
        unit_price_minor: line.unit_price_minor,
        amount_minor: line.amount_minor,
        status: DeliveryStatus::Pending,
        attempts: 0,
        lease_owner: None,
        lease_expires_at: None,
        provider_reference: None,
        failure_code: None,
        updated_at: now,
    }
}

pub open spec fn fresh_lines(lines: Seq<SnapshotLineModel>, now: i128) -> Seq<LineModel> {
    Seq::new(lines.len(), |i: int| fresh_line(lines[i], now))
}

/// The period row that a close writes.
pub open spec fn close_row(t: Tables, input: ClosePeriod, now: i128) -> Result<
    PeriodModel,
    StorageFailure,
> {
    let account = t.accounts[input.account_id@];
    let period_start = kept_instant(input.period_start as int) as i128;
    let period_end = kept_instant(input.period_end as int) as i128;
    let lines = in_order::<SnapshotLine>(models(input.lines@));
    if !t.accounts.contains_key(input.account_id@) || account.organization_id
        != input.organization_id@ {
        Err(refused(DomainFailure::NotFound))
    } else if account.status != AccountStatus::Active {
        Err(refused(DomainFailure::AccountDisabled))
    } else if account.revision != input.expected_account_revision {
        Err(refused(DomainFailure::RevisionConflict))
    } else if account_overlaps(t, input.account_id@, period_start, period_end)
        || t.periods.contains_key(input.period_id@) {
        Err(refused(DomainFailure::PeriodConflict))
    } else if delivery_ids_taken(t, lines) {
        Err(database_failure("insert billing period line"@))
    } else {
        Ok(
            PeriodRowOf {
                organization_id: input.organization_id@,
                account_id: input.account_id@,
                period_id: input.period_id@,
                period_start,
                period_end,
                currency: account.currency,
                status: if lines.len() == 0 {
                    PeriodStatus::Delivered
                } else {
                    PeriodStatus::Pending
                },
                account_revision: account.revision,
                total_amount_minor: input.total_amount_minor@,
                created_at: now,
                lines: fresh_lines(lines, now),
            },
        )
    }
}

/// What a close leaves and answers.
pub open spec fn close_outcome(t: Tables, input: ClosePeriod, now: i128) -> Result<
    (Tables, PeriodViewModel),
    StorageFailure,
> {
    match replayed(t, close_key(input), input.request_hash@) {
        Err(failure) => Err(failure),
        Ok(Some(ResponseOf::Period(view))) => Ok((t, view)),
        Ok(Some(_)) => Err(StorageErrorOf::Serialization),
        Ok(None) => match close_row(t, input, now) {
            Err(failure) => Err(failure),
            Ok(row) => match period_shown(row) {
                Err(failure) => Err(failure),
                Ok(view) => Ok(
                    (
                        with_command(
                            Tables { periods: t.periods.insert(row.period_id, row), ..t },
                            close_key(input),
                            input.request_hash@,
                            ResponseOf::Period(view),
                        ),
                        view,
                    ),
                ),
            },
        },
    }
}

/// The organization's period, as it is shown.
pub open spec fn period_outcome(t: Tables, organization_id: Text, period_id: Text) -> Result<
    PeriodViewModel,
    StorageFailure,
> {
    if t.periods.contains_key(period_id) && t.periods[period_id].organization_id
        == organization_id {
        period_shown(t.periods[period_id])
    } else {
        Err(refused(DomainFailure::NotFound))
    }
}

// Deliveries.

/// No two stored lines share a delivery id.
pub open spec fn deliveries_distinct(t: Tables) -> bool {
    forall|a: Text, i: int, b: Text, j: int|
        #[trigger] line_at(t, a, i) && #[trigger] line_at(t, b, j) && line(t, a, i).delivery_id
            == line(t, b, j).delivery_id ==> a == b && i == j
}

/// Where the line with this delivery id is stored.
pub open spec fn delivery_place(t: Tables, delivery_id: Text) -> (Text, int) {
    choose|id: Text, i: int| #[trigger]
        line_at(t, id, i) && line(t, id, i).delivery_id == delivery_id
}

pub open spec fn holds_status(lines: Seq<LineModel>, status: DeliveryStatus) -> bool {
    exists|i: int| 0 <= i < lines.len() && (#[trigger] lines[i]).status == status
}

pub open spec fn all_delivered(lines: Seq<LineModel>) -> bool {
    forall|i: int|
        0 <= i < lines.len() ==> (#[trigger] lines[i]).status == DeliveryStatus::Delivered
}

/// The status of a period with these lines: the worst of them, unknown being worse than failed.
pub open spec fn status_of(lines: Seq<LineModel>) -> PeriodStatus {
    if holds_status(lines, DeliveryStatus::Unknown) {
        PeriodStatus::Unknown
    } else if holds_status(lines, DeliveryStatus::Failed) {
        PeriodStatus::Failed
    } else if !all_delivered(lines) {
        PeriodStatus::Pending
    } else {
        PeriodStatus::Delivered
    }
}

/// The period with other lines, its status following them.
pub open spec fn with_lines(period: PeriodModel, lines: Seq<LineModel>) -> PeriodModel {
    PeriodRowOf { lines, status: status_of(lines), ..period }
}

/// The tables with the line `i` of the period `id` settled, and the period's status following.
pub open spec fn with_settled_line(t: Tables, id: Text, i: int, settled: LineModel) -> Tables {
    let period = t.periods[id];
    Tables {
        periods: t.periods.insert(id, with_lines(period, period.lines.update(i, settled))),
        ..t
    }
}

/// The line is pending and has used up its attempts.
pub open spec fn spent(line: LineModel, max_attempts: i32) -> bool {
    line.status == DeliveryStatus::Pending && line.attempts >= max_attempts
}

pub open spec fn given_up(line: LineModel, max_attempts: i32, now: i128) -> LineModel {
    if spent(line, max_attempts) {
        LineRowOf {
            status: DeliveryStatus::Failed,
            failure_code: Some("attempts_exhausted"@),
            lease_owner: None,
            lease_expires_at: None,
            updated_at: now,
            ..line
        }
    } else {
        line
    }
}

/// The period with its spent lines given up.
pub open spec fn period_given_up(period: PeriodModel, max_attempts: i32, now: i128) -> PeriodModel {
    if exists|i: int|
        0 <= i < period.lines.len() && spent(#[trigger] period.lines[i], max_attempts) {
        with_lines(
            period,
            Seq::new(
                period.lines.len(),
                |i: int| given_up(period.lines[i], max_attempts, now),
            ),
        )
    } else {
        period
    }
}

/// The tables with every spent line given up.
pub open spec fn tables_given_up(t: Tables, max_attempts: i32, now: i128) -> Tables {
    Tables {
        periods: Map::new(
            |id: Text| t.periods.contains_key(id),
            |id: Text| period_given_up(t.periods[id], max_attempts, now),
        ),
        ..t
    }
}

/// The line may be taken on: it is pending, or its lease has run out, and attempts are left.
pub open spec fn claimable(line: LineModel, max_attempts: i32, now: i128) -> bool {
    &&& line.attempts < max_attempts
    &&& {
        ||| line.status == DeliveryStatus::Pending
        ||| line.status == DeliveryStatus::InFlight && (line.lease_expires_at matches Some(expiry)
            && expiry <= now)
    }
}

/// The line was touched earlier, or at the same time under the lesser delivery id.
pub open spec fn earlier(a: LineModel, b: LineModel) -> bool {
    a.updated_at < b.updated_at || (a.updated_at == b.updated_at && text_less(
        a.delivery_id,
        b.delivery_id,
    ))
}

/// The line `i` of the period `id` may be taken on and no one else holds it.
pub open spec fn open_to_claim(
    t: Tables,
    held: Set<Text>,
    max_attempts: i32,
    now: i128,
    id: Text,
    i: int,
) -> bool {
    &&& line_at(t, id, i)
    &&& claimable(line(t, id, i), max_attempts, now)
    &&& !held.contains(line(t, id, i).delivery_id)
}

/// The line `i` of the period `id` is the one to take on next.
pub open spec fn next_to_claim(
    t: Tables,
    held: Set<Text>,
    max_attempts: i32,
    now: i128,
    id: Text,
    i: int,
) -> bool {
    &&& open_to_claim(t, held, max_attempts, now, id, i)
    &&& forall|other: Text, j: int|
        #[trigger] open_to_claim(t, held, max_attempts, now, other, j) ==> (other == id && j == i)
            || earlier(line(t, id, i), line(t, other, j))
}

/// The line as its new worker holds it: one attempt more, and a lease.
pub open spec fn claimed(line: LineModel, worker_id: Text, expiry: i128, now: i128) -> LineModel {
    LineRowOf {
        status: DeliveryStatus::InFlight,
        attempts: (line.attempts + 1) as i32,
        lease_owner: Some(worker_id),
        lease_expires_at: Some(expiry),
        failure_code: None,
        updated_at: now,
        ..line
    }
}

pub open spec fn lease_end(now: i128, lease_seconds: i64) -> int {
    now + lease_seconds * 1_000_000_000
}

/// What the worker is handed of a claimed line.
pub open spec fn claim_shown(
    account: AccountModel,
    period: PeriodModel,
    line: LineModel,
    occurred_at: Text,
) -> DeliveryClaimModel {
    DeliveryClaimOf {
        period_id: period.period_id,
        delivery_id: line.delivery_id,
        scope_kind: account.scope_kind,
        scope_id: account.scope_id,
        subject: account.subject,
        sink_meter: line.sink_meter,
        quantity: line.quantity,
        occurred_at,
        attempt: line.attempts,
    }
}

/// What a claim of the line `i` of the period `id` leaves and answers. Spent lines are given up on
/// the way; being spent, they are never the line that is claimed.
pub open spec fn claim_of(
    t: Tables,
    worker_id: Text,
    lease_seconds: i64,
    max_attempts: i32,
    now: i128,
    id: Text,
    i: int,
) -> Result<(Tables, Option<DeliveryClaimModel>), StorageFailure> {
    let given_up = tables_given_up(t, max_attempts, now);
    let period = given_up.periods[id];
    let expiry = lease_end(now, lease_seconds);
    let taken = claimed(period.lines[i], worker_id, expiry as i128, now);
    if !(i128::MIN <= expiry <= i128::MAX) {
        Err(database_failure("claim billing delivery"@))
    } else if !t.accounts.contains_key(period.account_id) {
        Err(database_failure("load claimed billing delivery"@))
    } else {
        match instant_text(period.period_end) {
            Err(message) => Err(StorageErrorOf::InvalidStored(message)),
            Ok(occurred_at) => Ok(
                (
                    Tables {
                        periods: given_up.periods.insert(
                            id,
                            PeriodRowOf { lines: period.lines.update(i, taken), ..period },
                        ),
                        ..given_up
                    },
                    Some(
                        claim_shown(t.accounts[period.account_id], period, taken, occurred_at),
                    ),
                ),
            ),
        }
    }
}

pub open spec fn anything_to_claim(
    t: Tables,
    held: Set<Text>,
    max_attempts: i32,
    now: i128,
) -> bool {
    exists|id: Text, i: int| #[trigger] open_to_claim(t, held, max_attempts, now, id, i)
}

/// What taking on the next delivery leaves and answers; `held` are the deliveries that another
/// worker is taking on at this moment.
pub open spec fn claim_outcome(
    t: Tables,
    worker_id: Text,
    lease_seconds: i64,
    max_attempts: i32,
    held: Set<Text>,
    now: i128,
) -> Result<(Tables, Option<DeliveryClaimModel>), StorageFailure> {
    if !anything_to_claim(t, held, max_attempts, now) {
        Ok((tables_given_up(t, max_attempts, now), None))
    } else {
        let (id, i) = choose|id: Text, i: int| #[trigger]
            next_to_claim(t, held, max_attempts, now, id, i);
        claim_of(t, worker_id, lease_seconds, max_attempts, now, id, i)
    }
}

/// The worker holds the line in this very attempt.
pub open spec fn holds_attempt(line: LineModel, worker_id: Text, attempt: i32) -> bool {
    &&& line.status == DeliveryStatus::InFlight
    &&& line.lease_owner == Some(worker_id)
    &&& line.attempts == attempt
}

/// The line once nobody holds it any more.
pub open spec fn released(
    line: LineModel,
    status: DeliveryStatus,
    provider_reference: Option<Text>,
    failure_code: Option<Text>,
    now: i128,
) -> LineModel {
    LineRowOf {
        status,
        lease_owner: None,
        lease_expires_at: None,
        provider_reference,
        failure_code,
        updated_at: now,
        ..line
    }
}

/// What the completion of an attempt leaves.
pub open spec fn complete_outcome(t: Tables, input: Completion, now: i128) -> Result<
    Tables,
    StorageFailure,
> {
    let (id, i) = delivery_place(t, input.delivery_id@);
    if delivery_stored(t, input.delivery_id@) && holds_attempt(
        line(t, id, i),
        input.worker_id@,
        input.attempt,
    ) {
        Ok(
            with_settled_line(
                t,
                id,
                i,
                released(
                    line(t, id, i),
                    input.status,
                    optional_text(input.provider_reference),
                    optional_text(input.failure_code),
                    now,
                ),
            ),
        )
    } else {
        Err(refused(DomainFailure::DeliveryNotFound))
    }
}

/// The organization has a delivery with this id.
pub open spec fn delivery_visible(t: Tables, organization_id: Text, delivery_id: Text) -> bool {
    &&& delivery_stored(t, delivery_id)
    &&& t.periods[delivery_place(t, delivery_id).0].organization_id == organization_id
}

/// The organization's delivery, as it is shown.
pub open spec fn delivery_outcome(t: Tables, organization_id: Text, delivery_id: Text) -> Result<
    DeliveryViewModel,
    StorageFailure,
> {
    let (id, i) = delivery_place(t, delivery_id);
    if delivery_visible(t, organization_id, delivery_id) {
        delivery_shown(t.periods[id], line(t, id, i))
    } else {
        Err(refused(DomainFailure::DeliveryNotFound))
    }
}

pub open spec fn resolve_key(input: ResolveDelivery) -> CommandKeyModel {
    CommandKeyOf {
        caller: input.caller@,
        actor: input.actor@,
        operation: Operation::ResolveDelivery,
        idempotency_key: input.idempotency_key@,
    }
}

/// The line as the administrator resolves it. Only a failed delivery or one of unknown effect can
/// be resolved, and as delivered only with the provider's reference.
pub open spec fn resolved(line: LineModel, input: ResolveDelivery, now: i128) -> Option<LineModel> {
    let reference = optional_text(input.provider_reference);
    if line.status != DeliveryStatus::Failed && line.status != DeliveryStatus::Unknown {
        None
    } else {
        match input.resolution {
            Resolution::Retry => Some(released(line, DeliveryStatus::Pending, None, None, now)),
            Resolution::Delivered => if reference is Some {
                Some(released(line, DeliveryStatus::Delivered, reference, None, now))
            } else {
                None
            },
            Resolution::Failed => Some(
                released(line, DeliveryStatus::Failed, reference, Some(input.reason@), now),
            ),
        }
    }
}

/// What a resolution leaves and answers.
pub open spec fn resolve_outcome(t: Tables, input: ResolveDelivery, now: i128) -> Result<
    (Tables, DeliveryViewModel),
    StorageFailure,
> {
    let (id, i) = delivery_place(t, input.delivery_id@);
    match replayed(t, resolve_key(input), input.request_hash@) {
        Err(failure) => Err(failure),
        Ok(Some(ResponseOf::Delivery(view))) => Ok((t, view)),
        Ok(Some(_)) => Err(StorageErrorOf::Serialization),
        Ok(None) => if !delivery_visible(t, input.organization_id@, input.delivery_id@) {
            Err(refused(DomainFailure::DeliveryNotFound))
        } else {
            match resolved(line(t, id, i), input, now) {
                None => Err(refused(DomainFailure::InvalidResolution)),
                Some(settled) => match delivery_shown(t.periods[id], settled) {
                    Err(failure) => Err(failure),
                    Ok(view) => Ok(
                        (
                            with_command(
                                with_settled_line(t, id, i, settled),
                                resolve_key(input),
                                input.request_hash@,
                                ResponseOf::Delivery(view),
                            ),
                            view,
                        ),
                    ),
                },
            }
        },
    }
}

// Pages.

/// The id stands behind the cursor, if there is one.
pub open spec fn behind(cursor: Option<Text>, id: Text) -> bool {
    cursor matches Some(last) ==> text_less(last, id)
}

/// The ids of the organization's accounts behind the cursor.
pub open spec fn account_ids(t: Tables, organization_id: Text, cursor: Option<Text>) -> Set<Text> {
    Set::new(
        |id: Text|
            t.accounts.contains_key(id) && t.accounts[id].organization_id == organization_id
                && behind(cursor, id),
    )
}

/// The ids of the periods of the organization's account behind the cursor.
pub open spec fn period_ids(
    t: Tables,
    organization_id: Text,
    account_id: Text,
    cursor: Option<Text>,
) -> Set<Text> {
    Set::new(
        |id: Text|
            t.periods.contains_key(id) && t.periods[id].organization_id == organization_id
                && t.periods[id].account_id == account_id && behind(cursor, id),
    )
}

/// The ids on the page: the first `limit` of them.
pub open spec fn page_ids(ids: Seq<Text>, limit: int) -> Seq<Text> {
    if limit < ids.len() {
        ids.take(limit)
    } else {
        ids
    }
}

/// Where the next page goes on: behind the last id on the page, if there is more.
pub open spec fn page_cursor(ids: Seq<Text>, limit: int) -> Option<Text> {
    if 0 < limit < ids.len() {
        Some(ids[limit - 1])
    } else {
        None
    }
}

/// The accounts with these ids, in this order, or the first failure.
pub open spec fn accounts_outcome(t: Tables, organization_id: Text, ids: Seq<Text>) -> Result<
    Seq<AccountViewModel>,
    StorageFailure,
>
    decreases ids.len(),
{
    if ids.len() == 0 {
        Ok(Seq::empty())
    } else {
        match accounts_outcome(t, organization_id, ids.drop_last()) {
            Err(failure) => Err(failure),
            Ok(shown) => match account_outcome(t, organization_id, ids.last()) {
                Err(failure) => Err(failure),
                Ok(view) => Ok(shown.push(view)),
            },
        }
    }
}

/// The periods with these ids, in this order, or the first failure.
pub open spec fn periods_outcome(t: Tables, organization_id: Text, ids: Seq<Text>) -> Result<
    Seq<PeriodViewModel>,
    StorageFailure,
>
    decreases ids.len(),
{
    if ids.len() == 0 {
        Ok(Seq::empty())
    } else {
        match periods_outcome(t, organization_id, ids.drop_last()) {
            Err(failure) => Err(failure),
            Ok(shown) => match period_outcome(t, organization_id, ids.last()) {
                Err(failure) => Err(failure),
                Ok(view) => Ok(shown.push(view)),
            },
        }
    }
}

/// The tables are keyed by what their rows say, hold finitely many periods, and no delivery id is
/// stored twice.
pub open spec fn tables_ok(t: Tables) -> bool {
    &&& forall|id: Text| #[trigger] t.accounts.contains_key(id) ==> t.accounts[id].account_id == id
    &&& forall|id: Text| #[trigger] t.periods.contains_key(id) ==> t.periods[id].period_id == id
    &&& forall|key: CommandKeyModel| #[trigger]
        t.commands.contains_key(key) ==> t.commands[key].key == key
    &&& t.periods.dom().finite()
    &&& deliveries_distinct(t)
}

/// Periods whose lines keep their places and delivery ids keep the delivery ids distinct.
pub(crate) proof fn lemma_same_delivery_ids(t: Tables, u: Tables)
    requires
        deliveries_distinct(t),
        forall|id: Text| #[trigger] u.periods.contains_key(id) ==> t.periods.contains_key(id),
        forall|id: Text| #[trigger]
            u.periods.contains_key(id) ==> u.periods[id].lines.len() == t.periods[id].lines.len(),
        forall|id: Text, i: int| #[trigger]
            line_at(u, id, i) ==> line(u, id, i).delivery_id == line(t, id, i).delivery_id,
    ensures
        deliveries_distinct(u),
{
    assert forall|a: Text, i: int, b: Text, j: int|
        #[trigger] line_at(u, a, i) && #[trigger] line_at(u, b, j) && line(u, a, i).delivery_id
            == line(u, b, j).delivery_id implies a == b && i == j by {
        assert(line_at(t, a, i) && line_at(t, b, j));
    }
}

/// There is at most one line to take on next.
pub(crate) proof fn lemma_next_is_unique(
    t: Tables,
    held: Set<Text>,
    max_attempts: i32,
    now: i128,
    a: Text,
    i: int,
    b: Text,
    j: int,
)
    requires
        next_to_claim(t, held, max_attempts, now, a, i),
        next_to_claim(t, held, max_attempts, now, b, j),
    ensures
        a == b && i == j,
{
    if !(a == b && i == j) {
        assert(open_to_claim(t, held, max_attempts, now, a, i));
        assert(open_to_claim(t, held, max_attempts, now, b, j));
        let (x, y) = (line(t, a, i), line(t, b, j));
        assert(earlier(x, y) && earlier(y, x));
        if x.updated_at == y.updated_at {
            law_text_order_is_transitive(x.delivery_id, y.delivery_id, x.delivery_id);
            law_text_order_is_irreflexive(x.delivery_id);
        }
    }
}

proof fn lemma_lines_finite(id: Text, n: nat)
    ensures
        Set::new(|place: (Text, int)| place.0 == id && 0 <= place.1 < n).finite(),
    decreases n,
{
    let all = Set::new(|place: (Text, int)| place.0 == id && 0 <= place.1 < n);
    if n == 0 {
        assert(all =~= Set::empty());
    } else {
        let m: nat = (n - 1) as nat;
        lemma_lines_finite(id, m);
        let front = Set::new(|place: (Text, int)| place.0 == id && 0 <= place.1 < m);
        assert(all =~= front.insert((id, m as int)));
    }
}

proof fn lemma_places_finite(t: Tables, ids: Set<Text>)
    requires
        ids.finite(),
    ensures
        Set::new(
            |place: (Text, int)| ids.contains(place.0) && line_at(t, place.0, place.1),
        ).finite(),
    decreases ids.len(),
{
    let all = Set::new(
        |place: (Text, int)| ids.contains(place.0) && line_at(t, place.0, place.1),
    );
    if ids.len() == 0 {
        assert(ids =~= Set::empty());
        assert(all =~= Set::empty());
    } else {
        let id = ids.choose();
        let rest = ids.remove(id);
        lemma_places_finite(t, rest);
        let others = Set::new(
            |place: (Text, int)| rest.contains(place.0) && line_at(t, place.0, place.1),
        );
        let n = if t.periods.contains_key(id) {
            t.periods[id].lines.len()
        } else {
            0
        };
        lemma_lines_finite(id, n);
        let own = Set::new(|place: (Text, int)| place.0 == id && 0 <= place.1 < n);
        assert(all =~= others.union(own));
    }
}

/// Of finitely many lines with different delivery ids one is the earliest.
proof fn lemma_earliest(t: Tables, places: Set<(Text, int)>) -> (first: (Text, int))
    requires
        deliveries_distinct(t),
        places.finite(),
        places.len() > 0,
        forall|place: (Text, int)| #[trigger]
            places.contains(place) ==> line_at(t, place.0, place.1),
    ensures
        places.contains(first),
        forall|place: (Text, int)| #[trigger]
            places.contains(place) ==> place == first || earlier(
                line(t, first.0, first.1),
                line(t, place.0, place.1),
            ),
    decreases places.len(),
{
    let one = places.choose();
    let rest = places.remove(one);
    if rest.len() == 0 {
        assert(rest =~= Set::empty());
        assert forall|place: (Text, int)| #[trigger] places.contains(place) implies place
            == one by {
            if place != one {
                assert(rest.contains(place));
            }
        }
        one
    } else {
        let best = lemma_earliest(t, rest);
        let (x, y) = (line(t, one.0, one.1), line(t, best.0, best.1));
        law_text_order_is_total(x.delivery_id, y.delivery_id);
        assert(line_at(t, one.0, one.1) && line_at(t, best.0, best.1));
        if earlier(x, y) {
            assert forall|place: (Text, int)| #[trigger] places.contains(place) implies place == one
                || earlier(x, line(t, place.0, place.1)) by {
                if place != one {
                    assert(rest.contains(place));
                    if place != best {
                        lemma_earlier_is_transitive(x, y, line(t, place.0, place.1));
                    }
                }
            }
            one
        } else {
            assert(earlier(y, x));
            assert forall|place: (Text, int)| #[trigger] places.contains(place) implies place
                == best || earlier(y, line(t, place.0, place.1)) by {
                if place != one {
                    assert(rest.contains(place));
                }
            }
            best
        }
    }
}

pub(crate) proof fn lemma_earlier_is_transitive(a: LineModel, b: LineModel, c: LineModel)
    requires
        earlier(a, b),
        earlier(b, c),
    ensures
        earlier(a, c),
{
    if a.updated_at == b.updated_at && b.updated_at == c.updated_at {
        law_text_order_is_transitive(a.delivery_id, b.delivery_id, c.delivery_id);
    }
}

/// Where anything can be taken on, there is one line to take on next.
pub proof fn lemma_next_exists(t: Tables, held: Set<Text>, max_attempts: i32, now: i128)
    requires
        tables_ok(t),
        anything_to_claim(t, held, max_attempts, now),
    ensures
        exists|id: Text, i: int| #[trigger] next_to_claim(t, held, max_attempts, now, id, i),
{
    let all = Set::new(
        |place: (Text, int)| t.periods.dom().contains(place.0) && line_at(t, place.0, place.1),
    );
    lemma_places_finite(t, t.periods.dom());
    let open = Set::new(
        |place: (Text, int)| open_to_claim(t, held, max_attempts, now, place.0, place.1),
    );
    assert(open.subset_of(all));
    vstd::set_lib::lemma_set_subset_finite(all, open);
    let (id, i) = choose|id: Text, i: int| #[trigger]
        open_to_claim(t, held, max_attempts, now, id, i);
    assert(open.contains((id, i)));
    assert(open.len() > 0) by {
        if open.len() == 0 {
            assert(open =~= Set::empty());
        }
    }
    let first = lemma_earliest(t, open);
    assert forall|other: Text, j: int| #[trigger]
        open_to_claim(t, held, max_attempts, now, other, j) implies (other == first.0 && j
        == first.1) || earlier(line(t, first.0, first.1), line(t, other, j)) by {
        assert(open.contains((other, j)));
    }
    assert(next_to_claim(t, held, max_attempts, now, first.0, first.1));
}

/// A new period whose delivery ids are not taken keeps the delivery ids distinct.
pub(crate) proof fn lemma_new_period(t: Tables, row: PeriodModel)
    requires
        deliveries_distinct(t),
        !t.periods.contains_key(row.period_id),
        forall|i: int|
            0 <= i < row.lines.len() ==> !delivery_stored(t, (#[trigger] row.lines[i]).delivery_id),
        forall|i: int, j: int|
            0 <= i < row.lines.len() && 0 <= j < row.lines.len() && (
            #[trigger] row.lines[i]).delivery_id == (#[trigger] row.lines[j]).delivery_id ==> i
                == j,
    ensures
        deliveries_distinct(Tables { periods: t.periods.insert(row.period_id, row), ..t }),
{
    let u = Tables { periods: t.periods.insert(row.period_id, row), ..t };
    assert forall|a: Text, i: int, b: Text, j: int|
        #[trigger] line_at(u, a, i) && #[trigger] line_at(u, b, j) && line(u, a, i).delivery_id
            == line(u, b, j).delivery_id implies a == b && i == j by {
        if a != row.period_id {
            assert(line_at(t, a, i));
            assert(line(t, a, i) == line(u, a, i));
        }
        if b != row.period_id {
            assert(line_at(t, b, j));
            assert(line(t, b, j) == line(u, b, j));
        }
        if a == row.period_id && b != row.period_id {
            assert(delivery_stored(t, row.lines[i].delivery_id));
        }
        if b == row.period_id && a != row.period_id {
            assert(delivery_stored(t, row.lines[j].delivery_id));
        }
        if a == row.period_id && b == row.period_id {
            assert(row.lines[i].delivery_id == row.lines[j].delivery_id);
        }
    }
}

/// Whether delivery ids are distinct is a matter of the periods alone.
pub(crate) proof fn lemma_same_periods(t: Tables, u: Tables)
    requires
        deliveries_distinct(t),
        u.periods == t.periods,
    ensures
        deliveries_distinct(u),
{
    assert forall|a: Text, i: int, b: Text, j: int|
        #[trigger] line_at(u, a, i) && #[trigger] line_at(u, b, j) && line(u, a, i).delivery_id
            == line(u, b, j).delivery_id implies a == b && i == j by {
        assert(line_at(t, a, i) && line_at(t, b, j));
    }
}

} // verus!
