//! What is kept of accounts, periods, lines and commands, and what is shown of them.
//!
//! Each record is written once, over the type of its texts. With `String` it is what runs, with
//! `Text` it is what the contracts speak of.

use vstd::prelude::*;

use crate::text::Text;

verus! {

#[derive(Clone, Copy, Debug, PartialEq, Eq, Structural)]
pub enum AccountStatus {
    Active,
    Disabled,
}

#[derive(Clone, Copy, Debug, PartialEq, Eq, Structural)]
pub enum DeliveryStatus {
    Pending,
    InFlight,
    Delivered,
    Failed,
    Unknown,
}

#[derive(Clone, Copy, Debug, PartialEq, Eq, Structural)]
pub enum PeriodStatus {
    Pending,
    Delivered,
    Failed,
    Unknown,
}

/// What an administrator decides about a delivery that failed or whose effect is unknown.
#[derive(Clone, Copy, Debug, PartialEq, Eq, Structural)]
pub enum Resolution {
    Retry,
    Delivered,
    Failed,
}

/// The operations whose outcome is kept under the caller's idempotency key.
#[derive(Clone, Copy, Debug, PartialEq, Eq, Structural)]
pub enum Operation {
    PutAccount,
    ClosePeriod,
    ResolveDelivery,
}

impl AccountStatus {
    pub open spec fn spec_name(self) -> Text {
        match self {
            AccountStatus::Active => "active"@,
            AccountStatus::Disabled => "disabled"@,
        }
    }

    pub fn name(self) -> (r: &'static str)
        ensures
            r@ == self.spec_name(),
    {
        match self {
            AccountStatus::Active => "active",
            AccountStatus::Disabled => "disabled",
        }
    }
}

impl DeliveryStatus {
    pub open spec fn spec_name(self) -> Text {
        match self {
            DeliveryStatus::Pending => "pending"@,
            DeliveryStatus::InFlight => "in_flight"@,
            DeliveryStatus::Delivered => "delivered"@,
            DeliveryStatus::Failed => "failed"@,
            DeliveryStatus::Unknown => "unknown"@,
        }
    }

    pub fn name(self) -> (r: &'static str)
        ensures
            r@ == self.spec_name(),
    {
        match self {
            DeliveryStatus::Pending => "pending",
            DeliveryStatus::InFlight => "in_flight",
            DeliveryStatus::Delivered => "delivered",
            DeliveryStatus::Failed => "failed",
            DeliveryStatus::Unknown => "unknown",
        }
    }
}

impl PeriodStatus {
    pub open spec fn spec_name(self) -> Text {
        match self {
            PeriodStatus::Pending => "pending"@,
            PeriodStatus::Delivered => "delivered"@,
            PeriodStatus::Failed => "failed"@,
            PeriodStatus::Unknown => "unknown"@,
        }
    }

    pub fn name(self) -> (r: &'static str)
        ensures
            r@ == self.spec_name(),
    {
        match self {
            PeriodStatus::Pending => "pending",
            PeriodStatus::Delivered => "delivered",
            PeriodStatus::Failed => "failed",
            PeriodStatus::Unknown => "unknown",
        }
    }
}

impl Operation {
    pub open spec fn spec_name(self) -> Text {
        match self {
            Operation::PutAccount => "put_account"@,
            Operation::ClosePeriod => "close_period"@,
            Operation::ResolveDelivery => "resolve_delivery"@,
        }
    }

    pub fn name(self) -> (r: &'static str)
        ensures
            r@ == self.spec_name(),
    {
        match self {
            Operation::PutAccount => "put_account",
            Operation::ClosePeriod => "close_period",
            Operation::ResolveDelivery => "resolve_delivery",
        }
    }
}

/// One mapping of a usage meter to a meter of the billing provider.
#[derive(Debug, PartialEq, Eq)]
pub struct MeterOf<T> {
    pub mapping_id: T,
    pub source_scope_kind: T,
    pub source_scope_id: T,
    pub source_subject: T,
    pub source_meter: T,
    pub sink_meter: T,
    pub unit_price_minor: T,
}

pub type MeterView = MeterOf<String>;

pub type MeterModel = MeterOf<Text>;

/// A billing account with its meter mappings, in the order in which they are shown.
#[derive(Debug, PartialEq, Eq)]
pub struct AccountRowOf<T, M> {
    pub organization_id: T,
    pub account_id: T,
    pub scope_kind: T,
    pub scope_id: T,
    pub subject: T,
    pub currency: T,
    pub status: AccountStatus,
    pub revision: i64,
    pub created_at: i128,
    pub updated_at: i128,
    pub meters: M,
}

pub type AccountRow = AccountRowOf<String, Vec<MeterView>>;

pub type AccountModel = AccountRowOf<Text, Seq<MeterModel>>;

/// An account as it is shown: revision and instants as text.
#[derive(Debug, PartialEq, Eq)]
pub struct AccountViewOf<T, M> {
    pub organization_id: T,
    pub account_id: T,
    pub scope_kind: T,
    pub scope_id: T,
    pub subject: T,
    pub currency: T,
    pub status: AccountStatus,
    pub revision: T,
    pub created_at: T,
    pub updated_at: T,
    pub meters: M,
}

pub type AccountView = AccountViewOf<String, Vec<MeterView>>;

pub type AccountViewModel = AccountViewOf<Text, Seq<MeterModel>>;

/// One line of a period and the state of its delivery.
#[derive(Debug, PartialEq, Eq)]
pub struct LineRowOf<T> {
    pub delivery_id: T,
    pub mapping_id: T,
    pub source_meter: T,
    pub sink_meter: T,
    pub quantity: T,
    pub usage_revision: i64,
    pub unit_price_minor: T,
    pub amount_minor: T,
    pub status: DeliveryStatus,
    pub attempts: i32,
    pub lease_owner: Option<T>,
    pub lease_expires_at: Option<i128>,
    pub provider_reference: Option<T>,
    pub failure_code: Option<T>,
    pub updated_at: i128,
}

pub type LineRow = LineRowOf<String>;

pub type LineModel = LineRowOf<Text>;

/// A closed period with its lines, in the order in which they are shown.
#[derive(Debug, PartialEq, Eq)]
pub struct PeriodRowOf<T, L> {
    pub organization_id: T,
    pub account_id: T,
    pub period_id: T,
    pub period_start: i128,
    pub period_end: i128,
    pub currency: T,
    pub status: PeriodStatus,
    pub account_revision: i64,
    pub total_amount_minor: T,
    pub created_at: i128,
    pub lines: L,
}

pub type PeriodRow = PeriodRowOf<String, Vec<LineRow>>;

pub type PeriodModel = PeriodRowOf<Text, Seq<LineModel>>;

/// A line as it is shown.
#[derive(Debug, PartialEq, Eq)]
pub struct LineViewOf<T> {
    pub delivery_id: T,
    pub mapping_id: T,
    pub source_meter: T,
    pub sink_meter: T,
    pub quantity: T,
    pub usage_revision: i64,
    pub unit_price_minor: T,
    pub amount_minor: T,
    pub status: DeliveryStatus,
    pub attempts: i64,
    pub provider_reference: Option<T>,
    pub failure_code: Option<T>,
}

pub type LineView = LineViewOf<String>;

pub type LineViewModel = LineViewOf<Text>;

/// A period as it is shown.
#[derive(Debug, PartialEq, Eq)]
pub struct PeriodViewOf<T, L> {
    pub organization_id: T,
    pub account_id: T,
    pub period_id: T,
    pub period_start: T,
    pub period_end: T,
    pub currency: T,
    pub status: PeriodStatus,
    pub account_revision: T,
    pub total_amount_minor: T,
    pub created_at: T,
    pub lines: L,
}

pub type PeriodView = PeriodViewOf<String, Vec<LineView>>;

pub type PeriodViewModel = PeriodViewOf<Text, Seq<LineViewModel>>;

/// A delivery as it is shown.
#[derive(Debug, PartialEq, Eq)]
pub struct DeliveryViewOf<T> {
    pub organization_id: T,
    pub account_id: T,
    pub period_id: T,
    pub delivery_id: T,
    pub mapping_id: T,
    pub status: DeliveryStatus,
    pub attempts: i64,
    pub provider_reference: Option<T>,
    pub failure_code: Option<T>,
    pub updated_at: T,
}

pub type DeliveryView = DeliveryViewOf<String>;

pub type DeliveryViewModel = DeliveryViewOf<Text>;

/// A delivery that a worker has taken on, with what the provider needs and the attempt it is.
#[derive(Debug, PartialEq, Eq)]
pub struct DeliveryClaimOf<T> {
    pub period_id: T,
    pub delivery_id: T,
    pub scope_kind: T,
    pub scope_id: T,
    pub subject: T,
    pub sink_meter: T,
    pub quantity: T,
    pub occurred_at: T,
    pub attempt: i32,
}

pub type DeliveryClaim = DeliveryClaimOf<String>;

pub type DeliveryClaimModel = DeliveryClaimOf<Text>;

/// One line of a snapshot that is about to be closed into a period.
#[derive(Debug, PartialEq, Eq)]
pub struct SnapshotLineOf<T> {
    pub delivery_id: T,
    pub mapping_id: T,
    pub source_meter: T,
    pub sink_meter: T,
    pub quantity: T,
    pub usage_revision: i64,
    pub unit_price_minor: T,
    pub amount_minor: T,
}

pub type SnapshotLine = SnapshotLineOf<String>;

pub type SnapshotLineModel = SnapshotLineOf<Text>;

/// What a finished command answered.
#[derive(Debug, PartialEq, Eq)]
pub enum ResponseOf<A, P, D> {
    Account(A),
    Period(P),
    Delivery(D),
}

pub type Response = ResponseOf<AccountView, PeriodView, DeliveryView>;

pub type ResponseModel = ResponseOf<AccountViewModel, PeriodViewModel, DeliveryViewModel>;

/// Under what a finished command is kept.
#[derive(Debug, PartialEq, Eq)]
pub struct CommandKeyOf<T> {
    pub caller: T,
    pub actor: T,
    pub operation: Operation,
    pub idempotency_key: T,
}

pub type CommandKey = CommandKeyOf<String>;

pub type CommandKeyModel = CommandKeyOf<Text>;

/// A finished command: its key, the fingerprint of its request and its answer.
#[derive(Debug, PartialEq, Eq)]
pub struct CommandRowOf<K, H, R> {
    pub key: K,
    pub request_hash: H,
    pub response: R,
}

pub type CommandRow = CommandRowOf<CommandKey, Vec<u8>, Response>;

pub type CommandModel = CommandRowOf<CommandKeyModel, Seq<u8>, ResponseModel>;

/// The characters of an optional string.
pub open spec fn optional_text(value: Option<String>) -> Option<Text> {
    match value {
        Some(text) => Some(text@),
        None => None,
    }
}

/// What the contracts speak of, element by element.
pub open spec fn models<R: View>(rows: Seq<R>) -> Seq<R::V> {
    Seq::new(rows.len(), |i: int| rows[i]@)
}

impl View for MeterOf<String> {
    type V = MeterModel;

    open spec fn view(&self) -> MeterModel {
        MeterOf {
            mapping_id: self.mapping_id@,
            source_scope_kind: self.source_scope_kind@,
            source_scope_id: self.source_scope_id@,
            source_subject: self.source_subject@,
            source_meter: self.source_meter@,
            sink_meter: self.sink_meter@,
            unit_price_minor: self.unit_price_minor@,
        }
    }
}

impl View for AccountRowOf<String, Vec<MeterOf<String>>> {
    type V = AccountModel;

    open spec fn view(&self) -> AccountModel {
        AccountRowOf {
            organization_id: self.organization_id@,
            account_id: self.account_id@,
            scope_kind: self.scope_kind@,
            scope_id: self.scope_id@,
            subject: self.subject@,
            currency: self.currency@,
            status: self.status,
            revision: self.revision,
            created_at: self.created_at,
            updated_at: self.updated_at,
            meters: models(self.meters@),
        }
    }
}

impl View for AccountViewOf<String, Vec<MeterOf<String>>> {
    type V = AccountViewModel;

    open spec fn view(&self) -> AccountViewModel {
        AccountViewOf {
            organization_id: self.organization_id@,
            account_id: self.account_id@,
            scope_kind: self.scope_kind@,
            scope_id: self.scope_id@,
            subject: self.subject@,
            currency: self.currency@,
            status: self.status,
            revision: self.revision@,
            created_at: self.created_at@,
            updated_at: self.updated_at@,
            meters: models(self.meters@),
        }
    }
}

impl View for LineRowOf<String> {
    type V = LineModel;

    open spec fn view(&self) -> LineModel {
        LineRowOf {
            delivery_id: self.delivery_id@,
            mapping_id: self.mapping_id@,
            source_meter: self.source_meter@,
            sink_meter: self.sink_meter@,
            quantity: self.quantity@,
            usage_revision: self.usage_revision,
            unit_price_minor: self.unit_price_minor@,
            amount_minor: self.amount_minor@,
            status: self.status,
            attempts: self.attempts,
            lease_owner: optional_text(self.lease_owner),
            lease_expires_at: self.lease_expires_at,
            provider_reference: optional_text(self.provider_reference),
            failure_code: optional_text(self.failure_code),
            updated_at: self.updated_at,
        }
    }
}

impl View for PeriodRowOf<String, Vec<LineRowOf<String>>> {
    type V = PeriodModel;

    open spec fn view(&self) -> PeriodModel {
        PeriodRowOf {
            organization_id: self.organization_id@,
            account_id: self.account_id@,
            period_id: self.period_id@,
            period_start: self.period_start,
            period_end: self.period_end,
            currency: self.currency@,
            status: self.status,
            account_revision: self.account_revision,
            total_amount_minor: self.total_amount_minor@,
            created_at: self.created_at,
            lines: models(self.lines@),
        }
    }
}

impl View for LineViewOf<String> {
    type V = LineViewModel;

    open spec fn view(&self) -> LineViewModel {
        LineViewOf {
            delivery_id: self.delivery_id@,
            mapping_id: self.mapping_id@,
            source_meter: self.source_meter@,
            sink_meter: self.sink_meter@,
            quantity: self.quantity@,
            usage_revision: self.usage_revision,
            unit_price_minor: self.unit_price_minor@,
            amount_minor: self.amount_minor@,
            status: self.status,
            attempts: self.attempts,
            provider_reference: optional_text(self.provider_reference),
            failure_code: optional_text(self.failure_code),
        }
    }
}

impl View for PeriodViewOf<String, Vec<LineViewOf<String>>> {
    type V = PeriodViewModel;

    open spec fn view(&self) -> PeriodViewModel {
        PeriodViewOf {
            organization_id: self.organization_id@,
            account_id: self.account_id@,
            period_id: self.period_id@,
            period_start: self.period_start@,
            period_end: self.period_end@,
            currency: self.currency@,
            status: self.status,
            account_revision: self.account_revision@,
            total_amount_minor: self.total_amount_minor@,
            created_at: self.created_at@,
            lines: models(self.lines@),
        }
    }
}

impl View for DeliveryViewOf<String> {
    type V = DeliveryViewModel;

    open spec fn view(&self) -> DeliveryViewModel {
        DeliveryViewOf {
            organization_id: self.organization_id@,
            account_id: self.account_id@,
            period_id: self.period_id@,
            delivery_id: self.delivery_id@,
            mapping_id: self.mapping_id@,
            status: self.status,
            attempts: self.attempts,
            provider_reference: optional_text(self.provider_reference),
            failure_code: optional_text(self.failure_code),
            updated_at: self.updated_at@,
        }
    }
}

impl View for DeliveryClaimOf<String> {
    type V = DeliveryClaimModel;

    open spec fn view(&self) -> DeliveryClaimModel {
        DeliveryClaimOf {
            period_id: self.period_id@,
            delivery_id: self.delivery_id@,
            scope_kind: self.scope_kind@,
            scope_id: self.scope_id@,
            subject: self.subject@,
            sink_meter: self.sink_meter@,
            quantity: self.quantity@,
            occurred_at: self.occurred_at@,
            attempt: self.attempt,
        }
    }
}

impl View for SnapshotLineOf<String> {
    type V = SnapshotLineModel;

    open spec fn view(&self) -> SnapshotLineModel {
        SnapshotLineOf {
            delivery_id: self.delivery_id@,
            mapping_id: self.mapping_id@,
            source_meter: self.source_meter@,
            sink_meter: self.sink_meter@,
            quantity: self.quantity@,
            usage_revision: self.usage_revision,
            unit_price_minor: self.unit_price_minor@,
            amount_minor: self.amount_minor@,
        }
    }
}

impl View for ResponseOf<
    AccountViewOf<String, Vec<MeterOf<String>>>,
    PeriodViewOf<String, Vec<LineViewOf<String>>>,
    DeliveryViewOf<String>,
> {
    type V = ResponseModel;

    open spec fn view(&self) -> ResponseModel {
        match self {
            ResponseOf::Account(account) => ResponseOf::Account(account@),
            ResponseOf::Period(period) => ResponseOf::Period(period@),
            ResponseOf::Delivery(delivery) => ResponseOf::Delivery(delivery@),
        }
    }
}

impl View for CommandKeyOf<String> {
    type V = CommandKeyModel;

    open spec fn view(&self) -> CommandKeyModel {
        CommandKeyOf {
            caller: self.caller@,
            actor: self.actor@,
            operation: self.operation,
            idempotency_key: self.idempotency_key@,
        }
    }
}

impl View for CommandRowOf<
    CommandKeyOf<String>,
    Vec<u8>,
    ResponseOf<
        AccountViewOf<String, Vec<MeterOf<String>>>,
        PeriodViewOf<String, Vec<LineViewOf<String>>>,
        DeliveryViewOf<String>,
    >,
> {
    type V = CommandModel;

    open spec fn view(&self) -> CommandModel {
        CommandRowOf {
            key: self.key@,
            request_hash: self.request_hash@,
            response: self.response@,
        }
    }
}

pub(crate) fn copy_optional(value: &Option<String>) -> (r: Option<String>)
    ensures
        optional_text(r) == optional_text(*value),
{
    match value {
        Some(text) => Some(text.clone()),
        None => None,
    }
}

impl MeterOf<String> {
    pub fn copy(&self) -> (r: Self)
        ensures
            r@ == self@,
    {
        MeterOf {
            mapping_id: self.mapping_id.clone(),
            source_scope_kind: self.source_scope_kind.clone(),
            source_scope_id: self.source_scope_id.clone(),
            source_subject: self.source_subject.clone(),
            source_meter: self.source_meter.clone(),
            sink_meter: self.sink_meter.clone(),
            unit_price_minor: self.unit_price_minor.clone(),
        }
    }
}

pub(crate) fn copy_meters(meters: &Vec<MeterView>) -> (r: Vec<MeterView>)
    ensures
        models(r@) == models(meters@),
{
    let mut out: Vec<MeterView> = Vec::new();
    let mut i: usize = 0;
    while i < meters.len()
        invariant
            i <= meters.len(),
            out.len() == i,
            forall|j: int| 0 <= j < i ==> (#[trigger] out@[j])@ == meters@[j]@,
        decreases meters.len() - i,
    {
        out.push(meters[i].copy());
        i = i + 1;
    }
    assert(models(out@) =~= models(meters@));
    out
}

impl LineViewOf<String> {
    fn copy(&self) -> (r: Self)
        ensures
            r@ == self@,
    {
        LineViewOf {
            delivery_id: self.delivery_id.clone(),
            mapping_id: self.mapping_id.clone(),
            source_meter: self.source_meter.clone(),
            sink_meter: self.sink_meter.clone(),
            quantity: self.quantity.clone(),
            usage_revision: self.usage_revision,
            unit_price_minor: self.unit_price_minor.clone(),
            amount_minor: self.amount_minor.clone(),
            status: self.status,
            attempts: self.attempts,
            provider_reference: copy_optional(&self.provider_reference),
            failure_code: copy_optional(&self.failure_code),
        }
    }
}

impl AccountViewOf<String, Vec<MeterOf<String>>> {
    pub(crate) fn copy(&self) -> (r: Self)
        ensures
            r@ == self@,
    {
        AccountViewOf {
            organization_id: self.organization_id.clone(),
            account_id: self.account_id.clone(),
            scope_kind: self.scope_kind.clone(),
            scope_id: self.scope_id.clone(),
            subject: self.subject.clone(),
            currency: self.currency.clone(),
            status: self.status,
            revision: self.revision.clone(),
            created_at: self.created_at.clone(),
            updated_at: self.updated_at.clone(),
            meters: copy_meters(&self.meters),
        }
    }
}

impl PeriodViewOf<String, Vec<LineViewOf<String>>> {
    pub(crate) fn copy(&self) -> (r: Self)
        ensures
            r@ == self@,
    {
        let mut lines: Vec<LineView> = Vec::new();
        let mut i: usize = 0;
        while i < self.lines.len()
            invariant
                i <= self.lines.len(),
                lines.len() == i,
                forall|j: int| 0 <= j < i ==> (#[trigger] lines@[j])@ == self.lines@[j]@,
            decreases self.lines.len() - i,
        {
            lines.push(self.lines[i].copy());
            i = i + 1;
        }
        assert(models(lines@) =~= models(self.lines@));
        PeriodViewOf {
            organization_id: self.organization_id.clone(),
            account_id: self.account_id.clone(),
            period_id: self.period_id.clone(),
            period_start: self.period_start.clone(),
            period_end: self.period_end.clone(),
            currency: self.currency.clone(),
            status: self.status,
            account_revision: self.account_revision.clone(),
            total_amount_minor: self.total_amount_minor.clone(),
            created_at: self.created_at.clone(),
            lines,
        }
    }
}

impl DeliveryViewOf<String> {
    pub(crate) fn copy(&self) -> (r: Self)
        ensures
            r@ == self@,
    {
        DeliveryViewOf {
            organization_id: self.organization_id.clone(),
            account_id: self.account_id.clone(),
            period_id: self.period_id.clone(),
            delivery_id: self.delivery_id.clone(),
            mapping_id: self.mapping_id.clone(),
            status: self.status,
            attempts: self.attempts,
            provider_reference: copy_optional(&self.provider_reference),
            failure_code: copy_optional(&self.failure_code),
            updated_at: self.updated_at.clone(),
        }
    }
}

impl CommandKeyOf<String> {
    pub(crate) fn same(&self, other: &Self) -> (r: bool)
        ensures
            r == (self@ == other@),
    {
        self.caller == other.caller && self.actor == other.actor && self.operation
            == other.operation && self.idempotency_key == other.idempotency_key
    }
}

/// The names under which states and operations are stored and shown.
pub proof fn law_states_have_names()
    ensures
        AccountStatus::Active.spec_name() == "active"@,
        AccountStatus::Disabled.spec_name() == "disabled"@,
        DeliveryStatus::Pending.spec_name() == "pending"@,
        DeliveryStatus::InFlight.spec_name() == "in_flight"@,
        DeliveryStatus::Delivered.spec_name() == "delivered"@,
        DeliveryStatus::Failed.spec_name() == "failed"@,
        DeliveryStatus::Unknown.spec_name() == "unknown"@,
        PeriodStatus::Pending.spec_name() == "pending"@,
        PeriodStatus::Delivered.spec_name() == "delivered"@,
        PeriodStatus::Failed.spec_name() == "failed"@,
        PeriodStatus::Unknown.spec_name() == "unknown"@,
        Operation::PutAccount.spec_name() == "put_account"@,
        Operation::ClosePeriod.spec_name() == "close_period"@,
        Operation::ResolveDelivery.spec_name() == "resolve_delivery"@,
{
}

} // verus!
