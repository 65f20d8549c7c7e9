//! Requests of administrators: what is accepted, and what the storage operations are given for it.

use vstd::prelude::*;

use crate::decimal::{
    i64_value, integer_text, integer_value, is_negative, law_written_integer_reads_back, parse_i64,
    parse_integer,
};
use crate::digest::{request_hash, sha256_digest};
use crate::error::BillingError;
use crate::input::{PutAccount, ResolveDelivery};
use crate::instant::{parse_rfc3339, rfc3339_instant};
use crate::model::{
    copy_optional, models, optional_text, AccountStatus, MeterModel, MeterOf, MeterView, Resolution,
};
use crate::text::{
    currency_accepted, id_accepted, key_accepted, optional_id_accepted, text_accepted,
    valid_currency, valid_id, valid_idempotency_key, valid_text, MAX_REASON_BYTES, Text,
};

verus! {

pub const MAX_PAGE_SIZE: i64 = 200;

#[derive(Debug, PartialEq, Eq)]
pub struct PutAccountRequest {
    pub organization_id: String,
    pub account_id: String,
    pub scope_kind: String,
    pub scope_id: String,
    pub subject: String,
    pub currency: String,
    pub status: AccountStatus,
    pub expected_revision: String,
    pub idempotency_key: String,
    pub meters: Vec<MeterView>,
}

#[derive(Debug, PartialEq, Eq)]
pub struct GetAccountRequest {
    pub organization_id: String,
    pub account_id: String,
}

#[derive(Debug, PartialEq, Eq)]
pub struct ListAccountsRequest {
    pub organization_id: String,
    pub cursor: Option<String>,
    pub limit: i64,
}

#[derive(Debug, PartialEq, Eq)]
pub struct ClosePeriodRequest {
    pub organization_id: String,
    pub account_id: String,
    pub period_id: String,
    pub period_start: String,
    pub period_end: String,
    pub expected_account_revision: String,
    pub idempotency_key: String,
}

#[derive(Debug, PartialEq, Eq)]
pub struct GetPeriodRequest {
    pub organization_id: String,
    pub period_id: String,
}

#[derive(Debug, PartialEq, Eq)]
pub struct ListPeriodsRequest {
    pub organization_id: String,
    pub account_id: String,
    pub cursor: Option<String>,
    pub limit: i64,
}

#[derive(Debug, PartialEq, Eq)]
pub struct InspectDeliveryRequest {
    pub organization_id: String,
    pub delivery_id: String,
}

/// The provider's reference may be left out or be given as nothing; the two mean the same.
#[derive(Debug, PartialEq, Eq)]
pub struct ResolveDeliveryRequest {
    pub organization_id: String,
    pub delivery_id: String,
    pub resolution: Resolution,
    pub provider_reference: Option<Option<String>>,
    pub reason: String,
    pub idempotency_key: String,
}

// Meters.

/// The usage that a mapping reads.
pub open spec fn source_key(meter: MeterModel) -> (Text, Text, Text, Text) {
    (
        meter.source_scope_kind,
        meter.source_scope_id,
        meter.source_subject,
        meter.source_meter,
    )
}

/// The mapping by itself is accepted: its texts are, and its price is a whole number from zero on.
pub open spec fn meter_accepted(meter: MeterModel) -> bool {
    &&& integer_value(meter.unit_price_minor) matches Some(price) && price >= 0
    &&& id_accepted(meter.mapping_id)
    &&& text_accepted(meter.source_scope_kind, 128, false)
    &&& id_accepted(meter.source_scope_id)
    &&& id_accepted(meter.source_subject)
    &&& text_accepted(meter.source_meter, 128, false)
    &&& text_accepted(meter.sink_meter, 100, false)
}

/// One to `maximum` accepted mappings, no two with the same id and no two of the same usage.
pub open spec fn meters_accepted(meters: Seq<MeterModel>, maximum: usize) -> bool {
    &&& 1 <= meters.len() <= maximum
    &&& forall|i: int| 0 <= i < meters.len() ==> meter_accepted(#[trigger] meters[i])
    &&& forall|i: int, j: int|
        0 <= i < j < meters.len() ==> (#[trigger] meters[i]).mapping_id != (
        #[trigger] meters[j]).mapping_id
    &&& forall|i: int, j: int|
        0 <= i < j < meters.len() ==> source_key(#[trigger] meters[i]) != source_key(
            #[trigger] meters[j],
        )
}

/// The mapping with its price in canonical decimal.
pub open spec fn canonical_meter(meter: MeterModel) -> MeterModel {
    MeterOf { unit_price_minor: integer_text(integer_value(meter.unit_price_minor)->0), ..meter }
}

pub open spec fn canonical_meters(meters: Seq<MeterModel>) -> Seq<MeterModel> {
    Seq::new(meters.len(), |i: int| canonical_meter(meters[i]))
}

/// The mapping with its price in canonical decimal, if it is accepted by itself.
fn validate_meter(meter: &MeterView) -> (r: Option<MeterView>)
    ensures
        match r {
            Some(valid) => meter_accepted(meter@) && valid@ == canonical_meter(meter@),
            None => !meter_accepted(meter@),
        },
{
    let price = match parse_integer(meter.unit_price_minor.as_str()) {
        Some(price) => price,
        None => {
            return None;
        },
    };
    if !valid_id(meter.mapping_id.as_str()) || !valid_text(
        meter.source_scope_kind.as_str(),
        128,
        false,
    ) || !valid_id(meter.source_scope_id.as_str()) || !valid_id(meter.source_subject.as_str())
        || !valid_text(meter.source_meter.as_str(), 128, false) || !valid_text(
        meter.sink_meter.as_str(),
        100,
        false,
    ) || is_negative(price.as_str(), Ghost(integer_value(meter.unit_price_minor@)->0)) {
        return None;
    }
    Some(
        MeterOf {
            mapping_id: meter.mapping_id.clone(),
            source_scope_kind: meter.source_scope_kind.clone(),
            source_scope_id: meter.source_scope_id.clone(),
            source_subject: meter.source_subject.clone(),
            source_meter: meter.source_meter.clone(),
            sink_meter: meter.sink_meter.clone(),
            unit_price_minor: price,
        },
    )
}

/// Whether the two mappings read the same usage.
fn same_source(left: &MeterView, right: &MeterView) -> (r: bool)
    ensures
        r == (source_key(left@) == source_key(right@)),
{
    left.source_scope_kind == right.source_scope_kind && left.source_scope_id
        == right.source_scope_id && left.source_subject == right.source_subject
        && left.source_meter == right.source_meter
}

/// The mappings of the request with canonical prices, if they are accepted.
pub fn validate_meters(request: &PutAccountRequest, maximum: usize) -> (r: Option<Vec<MeterView>>)
    ensures
        match r {
            Some(valid) => meters_accepted(models(request.meters@), maximum) && models(valid@)
                == canonical_meters(models(request.meters@)),
            None => !meters_accepted(models(request.meters@), maximum),
        },
{
    let meters = &request.meters;
    if meters.len() == 0 || meters.len() > maximum {
        return None;
    }
    let ghost rows = models(meters@);
    let mut out: Vec<MeterView> = Vec::new();
    let mut i: usize = 0;
    while i < meters.len()
        invariant
            i <= meters@.len(),
            *meters == request.meters,
            rows == models(meters@),
            out@.len() == i,
            forall|j: int|
                0 <= j < i ==> (#[trigger] out@[j])@ == canonical_meter(rows[j]),
            forall|j: int| 0 <= j < i ==> meter_accepted(#[trigger] rows[j]),
            forall|j: int, k: int|
                0 <= j < k < i ==> (#[trigger] rows[j]).mapping_id != (
                #[trigger] rows[k]).mapping_id,
            forall|j: int, k: int|
                0 <= j < k < i ==> source_key(#[trigger] rows[j]) != source_key(#[trigger] rows[k]),
        decreases meters@.len() - i,
    {
        assert(rows[i as int] == meters@[i as int]@);
        let valid = match validate_meter(&meters[i]) {
            Some(valid) => valid,
            None => {
                assert(!meter_accepted(rows[i as int]));
                return None;
            },
        };
        let mut j: usize = 0;
        while j < i
            invariant
                j <= i < meters@.len(),
                *meters == request.meters,
                rows == models(meters@),
                forall|k: int|
                    0 <= k < j ==> (#[trigger] rows[k]).mapping_id != rows[i as int].mapping_id
                        && source_key(rows[k]) != source_key(rows[i as int]),
            decreases i - j,
        {
            assert(rows[j as int] == meters@[j as int]@);
            assert(rows[i as int] == meters@[i as int]@);
            if meters[j].mapping_id == meters[i].mapping_id {
                return None;
            }
            if same_source(&meters[j], &meters[i]) {
                return None;
            }
            j = j + 1;
        }
        out.push(valid);
        i = i + 1;
    }
    assert(models(out@) =~= canonical_meters(rows));
    Some(out)
}

// Accounts.

pub open spec fn put_accepted(request: PutAccountRequest, max_meters: usize) -> bool {
    &&& meters_accepted(models(request.meters@), max_meters)
    &&& id_accepted(request.organization_id@)
    &&& id_accepted(request.account_id@)
    &&& text_accepted(request.scope_kind@, 128, false)
    &&& id_accepted(request.scope_id@)
    &&& id_accepted(request.subject@)
    &&& currency_accepted(request.currency@)
    &&& i64_value(request.expected_revision@) matches Some(revision) && revision >= 0
    &&& key_accepted(request.idempotency_key@)
}

/// `input` is what storage is given for the request of this caller and actor.
pub open spec fn put_input(
    input: PutAccount,
    request: PutAccountRequest,
    caller: Text,
    actor: Text,
    wire: Seq<u8>,
) -> bool {
    &&& input.caller@ == caller
    &&& input.actor@ == actor
    &&& input.organization_id@ == request.organization_id@
    &&& input.account_id@ == request.account_id@
    &&& input.scope_kind@ == request.scope_kind@
    &&& input.scope_id@ == request.scope_id@
    &&& input.subject@ == request.subject@
    &&& input.currency@ == request.currency@
    &&& input.status == request.status
    &&& Some(input.expected_revision) == i64_value(request.expected_revision@)
    &&& input.idempotency_key@ == request.idempotency_key@
    &&& input.request_hash@ == sha256_digest(wire)
    &&& models(input.meters@) == canonical_meters(models(request.meters@))
}

/// What storage is given for the request, whose wire bytes are `wire`.
pub fn prepare_put_account(
    request: &PutAccountRequest,
    max_meters: usize,
    caller: String,
    actor: String,
    wire: &[u8],
) -> (r: Result<PutAccount, BillingError>)
    ensures
        match r {
            Ok(input) => put_accepted(*request, max_meters) && put_input(
                input,
                *request,
                caller@,
                actor@,
                wire@,
            ),
            Err(error) => !put_accepted(*request, max_meters) && error
                == BillingError::InvalidRequest,
        },
{
    let expected_revision: i64 = match parse_i64(request.expected_revision.as_str()) {
        Some(revision) => revision,
        None => {
            return Err(BillingError::InvalidRequest);
        },
    };
    let meters = match validate_meters(request, max_meters) {
        Some(meters) => meters,
        None => {
            return Err(BillingError::InvalidRequest);
        },
    };
    if !valid_id(request.organization_id.as_str()) || !valid_id(request.account_id.as_str())
        || !valid_text(request.scope_kind.as_str(), 128, false) || !valid_id(
        request.scope_id.as_str(),
    ) || !valid_id(request.subject.as_str()) || !valid_currency(request.currency.as_str())
        || expected_revision < 0 || !valid_idempotency_key(request.idempotency_key.as_str()) {
        return Err(BillingError::InvalidRequest);
    }
    Ok(
        PutAccount {
            caller,
            actor,
            organization_id: request.organization_id.clone(),
            account_id: request.account_id.clone(),
            scope_kind: request.scope_kind.clone(),
            scope_id: request.scope_id.clone(),
            subject: request.subject.clone(),
            currency: request.currency.clone(),
            status: request.status,
            expected_revision,
            idempotency_key: request.idempotency_key.clone(),
            request_hash: request_hash(wire),
            meters,
        },
    )
}

/// `r` is `Ok` where the request is accepted, and else says that it is not.
pub open spec fn checked(r: Result<(), BillingError>, accepted: bool) -> bool {
    r == if accepted {
        Ok::<(), BillingError>(())
    } else {
        Err::<(), BillingError>(BillingError::InvalidRequest)
    }
}

fn check(accepted: bool) -> (r: Result<(), BillingError>)
    ensures
        checked(r, accepted),
{
    if accepted {
        Ok(())
    } else {
        Err(BillingError::InvalidRequest)
    }
}

pub fn check_get_account(request: &GetAccountRequest) -> (r: Result<(), BillingError>)
    ensures
        checked(r, id_accepted(request.organization_id@) && id_accepted(request.account_id@)),
{
    check(valid_id(request.organization_id.as_str()) && valid_id(request.account_id.as_str()))
}

/// A page may be asked for: of one to two hundred rows, behind an id if behind anything.
pub open spec fn page_accepted(cursor: Option<Text>, limit: i64) -> bool {
    1 <= limit <= MAX_PAGE_SIZE && optional_id_accepted(cursor)
}

fn valid_optional_id(id: &Option<String>) -> (r: bool)
    ensures
        r == optional_id_accepted(optional_text(*id)),
{
    match id {
        Some(id) => valid_id(id.as_str()),
        None => true,
    }
}

fn valid_page(cursor: &Option<String>, limit: i64) -> (r: bool)
    ensures
        r == page_accepted(optional_text(*cursor), limit),
{
    1 <= limit && limit <= MAX_PAGE_SIZE && valid_optional_id(cursor)
}

pub fn check_list_accounts(request: &ListAccountsRequest) -> (r: Result<(), BillingError>)
    ensures
        checked(
            r,
            id_accepted(request.organization_id@) && page_accepted(
                optional_text(request.cursor),
                request.limit,
            ),
        ),
{
    check(
        valid_id(request.organization_id.as_str()) && valid_page(&request.cursor, request.limit),
    )
}

// Periods.

pub fn check_get_period(request: &GetPeriodRequest) -> (r: Result<(), BillingError>)
    ensures
        checked(r, id_accepted(request.organization_id@) && id_accepted(request.period_id@)),
{
    check(valid_id(request.organization_id.as_str()) && valid_id(request.period_id.as_str()))
}

pub fn check_list_periods(request: &ListPeriodsRequest) -> (r: Result<(), BillingError>)
    ensures
        checked(
            r,
            id_accepted(request.organization_id@) && id_accepted(request.account_id@)
                && page_accepted(optional_text(request.cursor), request.limit),
        ),
{
    check(
        valid_id(request.organization_id.as_str()) && valid_id(request.account_id.as_str())
            && valid_page(&request.cursor, request.limit),
    )
}

/// The instants of a window and the account revision that it is to be closed at.
#[derive(Clone, Copy, Debug, PartialEq, Eq, Structural)]
pub struct CloseWindow {
    pub period_start: i128,
    pub period_end: i128,
    pub expected_account_revision: i64,
}

/// The window that a close asks for, given what its three texts stand for: the end lies behind the
/// start, and the revision is one that an account can have.
pub open spec fn close_window(
    period_start: Option<i128>,
    period_end: Option<i128>,
    revision: Option<i64>,
) -> Option<CloseWindow> {
    match (period_start, period_end, revision) {
        (Some(start), Some(end), Some(expected)) => if start < end && expected > 0 {
            Some(
                CloseWindow {
                    period_start: start,
                    period_end: end,
                    expected_account_revision: expected,
                },
            )
        } else {
            None
        },
        _ => None,
    }
}

/// The window of the request.
pub open spec fn requested_window(request: ClosePeriodRequest) -> Option<CloseWindow> {
    close_window(
        rfc3339_instant(request.period_start@),
        rfc3339_instant(request.period_end@),
        i64_value(request.expected_account_revision@),
    )
}

/// Everything else in the request is accepted.
pub open spec fn close_ids_accepted(request: ClosePeriodRequest) -> bool {
    &&& id_accepted(request.organization_id@)
    &&& id_accepted(request.account_id@)
    &&& id_accepted(request.period_id@)
    &&& key_accepted(request.idempotency_key@)
}

/// The window of the request, given the instants that its two texts stand for.
pub fn window_between(
    request: &ClosePeriodRequest,
    period_start: Option<i128>,
    period_end: Option<i128>,
) -> (r: Result<CloseWindow, BillingError>)
    ensures
        match close_window(
            period_start,
            period_end,
            i64_value(request.expected_account_revision@),
        ) {
            Some(window) => if close_ids_accepted(*request) {
                r == Ok::<CloseWindow, BillingError>(window)
            } else {
                r == Err::<CloseWindow, BillingError>(BillingError::InvalidRequest)
            },
            None => r == Err::<CloseWindow, BillingError>(BillingError::InvalidRequest),
        },
{
    let expected = parse_i64(request.expected_account_revision.as_str());
    if !valid_id(request.organization_id.as_str()) || !valid_id(request.account_id.as_str())
        || !valid_id(request.period_id.as_str()) || !valid_idempotency_key(
        request.idempotency_key.as_str(),
    ) {
        return Err(BillingError::InvalidRequest);
    }
    match (period_start, period_end, expected) {
        (Some(start), Some(end), Some(expected)) => if start < end && expected > 0 {
            Ok(
                CloseWindow {
                    period_start: start,
                    period_end: end,
                    expected_account_revision: expected,
                },
            )
        } else {
            Err(BillingError::InvalidRequest)
        },
        _ => Err(BillingError::InvalidRequest),
    }
}

/// The window that the request asks to close.
pub fn check_close_period(request: &ClosePeriodRequest) -> (r: Result<CloseWindow, BillingError>)
    ensures
        match requested_window(*request) {
            Some(window) => if close_ids_accepted(*request) {
                r == Ok::<CloseWindow, BillingError>(window)
            } else {
                r == Err::<CloseWindow, BillingError>(BillingError::InvalidRequest)
            },
            None => r == Err::<CloseWindow, BillingError>(BillingError::InvalidRequest),
        },
{
    window_between(
        request,
        parse_rfc3339(request.period_start.as_str()),
        parse_rfc3339(request.period_end.as_str()),
    )
}

// Deliveries.

pub fn check_inspect_delivery(request: &InspectDeliveryRequest) -> (r: Result<(), BillingError>)
    ensures
        checked(r, id_accepted(request.organization_id@) && id_accepted(request.delivery_id@)),
{
    check(valid_id(request.organization_id.as_str()) && valid_id(request.delivery_id.as_str()))
}

/// The provider's reference, if one is given.
pub open spec fn given_reference(reference: Option<Option<String>>) -> Option<Text> {
    match reference {
        Some(given) => optional_text(given),
        None => None,
    }
}

fn flatten(reference: &Option<Option<String>>) -> (r: Option<String>)
    ensures
        optional_text(r) == given_reference(*reference),
{
    match reference {
        Some(given) => copy_optional(given),
        None => None,
    }
}

pub open spec fn resolve_accepted(request: ResolveDeliveryRequest) -> bool {
    &&& id_accepted(request.organization_id@)
    &&& id_accepted(request.delivery_id@)
    &&& text_accepted(request.reason@, MAX_REASON_BYTES as int, false)
    &&& key_accepted(request.idempotency_key@)
    &&& optional_id_accepted(given_reference(request.provider_reference))
}

/// `input` is what storage is given for the request of this caller and actor.
pub open spec fn resolve_input(
    input: ResolveDelivery,
    request: ResolveDeliveryRequest,
    caller: Text,
    actor: Text,
    wire: Seq<u8>,
) -> bool {
    &&& input.caller@ == caller
    &&& input.actor@ == actor
    &&& input.organization_id@ == request.organization_id@
    &&& input.delivery_id@ == request.delivery_id@
    &&& input.resolution == request.resolution
    &&& optional_text(input.provider_reference) == given_reference(request.provider_reference)
    &&& input.reason@ == request.reason@
    &&& input.idempotency_key@ == request.idempotency_key@
    &&& input.request_hash@ == sha256_digest(wire)
}

/// What storage is given for the request, whose wire bytes are `wire`.
pub fn prepare_resolve_delivery(
    request: &ResolveDeliveryRequest,
    caller: String,
    actor: String,
    wire: &[u8],
) -> (r: Result<ResolveDelivery, BillingError>)
    ensures
        match r {
            Ok(input) => resolve_accepted(*request) && resolve_input(
                input,
                *request,
                caller@,
                actor@,
                wire@,
            ),
            Err(error) => !resolve_accepted(*request) && error == BillingError::InvalidRequest,
        },
{
    let provider_reference = flatten(&request.provider_reference);
    if !valid_id(request.organization_id.as_str()) || !valid_id(request.delivery_id.as_str())
        || !valid_text(request.reason.as_str(), MAX_REASON_BYTES, false) || !valid_idempotency_key(
        request.idempotency_key.as_str(),
    ) || !valid_optional_id(&provider_reference) {
        return Err(BillingError::InvalidRequest);
    }
    Ok(
        ResolveDelivery {
            caller,
            actor,
            organization_id: request.organization_id.clone(),
            delivery_id: request.delivery_id.clone(),
            resolution: request.resolution,
            provider_reference,
            reason: request.reason.clone(),
            idempotency_key: request.idempotency_key.clone(),
            request_hash: request_hash(wire),
        },
    )
}

/// When mappings are accepted: one to so many; each with ids, meters and scopes within their bounds
/// and with a price that is a whole number from zero on; no two with one id, and no two that read
/// one usage.
pub proof fn law_accepted_meters(meters: Seq<MeterModel>, maximum: usize)
    ensures
        meters_accepted(meters, maximum) <==> {
            &&& 1 <= meters.len() <= maximum
            &&& forall|i: int|
                0 <= i < meters.len() ==> {
                    let meter = #[trigger] meters[i];
                    &&& text_accepted(meter.mapping_id, 512, false)
                    &&& text_accepted(meter.source_scope_kind, 128, false)
                    &&& text_accepted(meter.source_scope_id, 512, false)
                    &&& text_accepted(meter.source_subject, 512, false)
                    &&& text_accepted(meter.source_meter, 128, false)
                    &&& text_accepted(meter.sink_meter, 100, false)
                    &&& integer_value(meter.unit_price_minor) is Some
                    &&& integer_value(meter.unit_price_minor)->0 >= 0
                }
            &&& forall|i: int, j: int|
                0 <= i < j < meters.len() ==> {
                    let (a, b) = (#[trigger] meters[i], #[trigger] meters[j]);
                    &&& a.mapping_id != b.mapping_id
                    &&& !(a.source_scope_kind == b.source_scope_kind && a.source_scope_id
                        == b.source_scope_id && a.source_subject == b.source_subject
                        && a.source_meter == b.source_meter)
                }
        },
{
    if meters_accepted(meters, maximum) {
        assert forall|i: int, j: int| 0 <= i < j < meters.len() implies {
            let (a, b) = (#[trigger] meters[i], #[trigger] meters[j]);
            &&& a.mapping_id != b.mapping_id
            &&& !(a.source_scope_kind == b.source_scope_kind && a.source_scope_id
                == b.source_scope_id && a.source_subject == b.source_subject && a.source_meter
                == b.source_meter)
        } by {
            assert(source_key(meters[i]) != source_key(meters[j]));
        }
        assert forall|i: int| 0 <= i < meters.len() implies integer_value(
            (#[trigger] meters[i]).unit_price_minor,
        ) is Some by {
            assert(meter_accepted(meters[i]));
        }
    }
}

/// Prices are handed on in canonical decimal, the same numbers as before; nothing else of a mapping
/// changes, and mappings keep their places.
pub proof fn law_prices_are_made_canonical(meters: Seq<MeterModel>)
    ensures
        canonical_meters(meters).len() == meters.len(),
        forall|i: int|
            0 <= i < meters.len() ==> {
                let (a, b) = (meters[i], #[trigger] canonical_meters(meters)[i]);
                &&& b.mapping_id == a.mapping_id
                &&& b.source_scope_kind == a.source_scope_kind
                &&& b.source_scope_id == a.source_scope_id
                &&& b.source_subject == a.source_subject
                &&& b.source_meter == a.source_meter
                &&& b.sink_meter == a.sink_meter
                &&& integer_value(a.unit_price_minor) matches Some(price) ==> b.unit_price_minor
                    == integer_text(price) && integer_value(b.unit_price_minor) == Some(price)
            },
{
    assert forall|i: int| 0 <= i < meters.len() implies (integer_value(
        meters[i].unit_price_minor,
    ) matches Some(price) ==> integer_value(
        (#[trigger] canonical_meters(meters)[i]).unit_price_minor,
    ) == Some(price)) by {
        if let Some(price) = integer_value(meters[i].unit_price_minor) {
            law_written_integer_reads_back(price);
        }
    }
}

/// When a put is accepted, and what storage is handed for it: what the request says, by this caller
/// and actor.
pub proof fn law_accepted_put_is_handed_over(
    request: PutAccountRequest,
    max_meters: usize,
    input: PutAccount,
    caller: Text,
    actor: Text,
    wire: Seq<u8>,
)
    ensures
        put_accepted(request, max_meters) <==> {
            &&& text_accepted(request.organization_id@, 512, false)
            &&& text_accepted(request.account_id@, 512, false)
            &&& text_accepted(request.scope_kind@, 128, false)
            &&& text_accepted(request.scope_id@, 512, false)
            &&& text_accepted(request.subject@, 512, false)
            &&& currency_accepted(request.currency@)
            &&& text_accepted(request.idempotency_key@, 200, false)
            &&& i64_value(request.expected_revision@) is Some
            &&& i64_value(request.expected_revision@)->0 >= 0
            &&& meters_accepted(models(request.meters@), max_meters)
        },
        put_input(input, request, caller, actor, wire) ==> {
            &&& input.caller@ == caller
            &&& input.actor@ == actor
            &&& input.organization_id@ == request.organization_id@
            &&& input.account_id@ == request.account_id@
            &&& input.scope_kind@ == request.scope_kind@
            &&& input.scope_id@ == request.scope_id@
            &&& input.subject@ == request.subject@
            &&& input.currency@ == request.currency@
            &&& input.status == request.status
            &&& i64_value(request.expected_revision@) == Some(input.expected_revision)
            &&& input.idempotency_key@ == request.idempotency_key@
            &&& input.request_hash@ == sha256_digest(wire)
            &&& models(input.meters@) == canonical_meters(models(request.meters@))
        },
{
}

/// A request that is accepted is let through, and any other is said to be invalid.
pub proof fn law_checked_requests(r: Result<(), BillingError>, accepted: bool)
    requires
        checked(r, accepted),
    ensures
        r is Ok <==> accepted,
        r is Err ==> r->Err_0 == BillingError::InvalidRequest,
{
}

/// A page may have one to two hundred rows, and begins anywhere or behind an id.
pub proof fn law_accepted_pages(cursor: Option<Text>, limit: i64)
    ensures
        page_accepted(cursor, limit) <==> {
            &&& 1 <= limit <= 200
            &&& cursor is Some ==> text_accepted(cursor->0, 512, false)
        },
{
}

/// A window to be closed is the two instants and the revision that the request says: the end lies
/// behind the start, and the revision is positive.
pub proof fn law_closed_window_is_the_requested_one(request: ClosePeriodRequest)
    ensures
        requested_window(request) is Some <==> {
            &&& rfc3339_instant(request.period_start@) is Some
            &&& rfc3339_instant(request.period_end@) is Some
            &&& i64_value(request.expected_account_revision@) is Some
            &&& rfc3339_instant(request.period_start@)->0 < rfc3339_instant(request.period_end@)->0
            &&& 0 < i64_value(request.expected_account_revision@)->0
        },
        requested_window(request) matches Some(window) ==> {
            &&& rfc3339_instant(request.period_start@) == Some(window.period_start)
            &&& rfc3339_instant(request.period_end@) == Some(window.period_end)
            &&& i64_value(request.expected_account_revision@) == Some(
                window.expected_account_revision,
            )
        },
        close_ids_accepted(request) <==> {
            &&& text_accepted(request.organization_id@, 512, false)
            &&& text_accepted(request.account_id@, 512, false)
            &&& text_accepted(request.period_id@, 512, false)
            &&& text_accepted(request.idempotency_key@, 200, false)
        },
{
}

/// When a resolution is accepted, and what storage is handed for it: what the request says, by this
/// caller and actor; a reference that is given as nothing is none.
pub proof fn law_accepted_resolution_is_handed_over(
    request: ResolveDeliveryRequest,
    input: ResolveDelivery,
    caller: Text,
    actor: Text,
    wire: Seq<u8>,
)
    ensures
        resolve_accepted(request) <==> {
            &&& text_accepted(request.organization_id@, 512, false)
            &&& text_accepted(request.delivery_id@, 512, false)
            &&& text_accepted(request.reason@, 2000, false)
            &&& text_accepted(request.idempotency_key@, 200, false)
            &&& request.provider_reference matches Some(Some(reference)) ==> text_accepted(
                reference@,
                512,
                false,
            )
        },
        resolve_input(input, request, caller, actor, wire) ==> {
            &&& input.caller@ == caller
            &&& input.actor@ == actor
            &&& input.organization_id@ == request.organization_id@
            &&& input.delivery_id@ == request.delivery_id@
            &&& input.resolution == request.resolution
            &&& input.reason@ == request.reason@
            &&& input.idempotency_key@ == request.idempotency_key@
            &&& input.request_hash@ == sha256_digest(wire)
            &&& match request.provider_reference {
                Some(Some(reference)) => input.provider_reference matches Some(kept) && kept@
                    == reference@,
                _ => input.provider_reference is None,
            }
        },
{
}

} // verus!
