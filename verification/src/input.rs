//! What the storage operations are given.

use vstd::prelude::*;

use crate::model::{AccountStatus, DeliveryStatus, MeterView, Resolution, SnapshotLine};

verus! {

/// A full replacement of an account and its meter mappings, at an expected revision.
#[derive(Debug)]
pub struct PutAccount {
    pub caller: String,
    pub actor: String,
    pub organization_id: String,
    pub account_id: String,
    pub scope_kind: String,
    pub scope_id: String,
    pub subject: String,
    pub currency: String,
    pub status: AccountStatus,
    pub expected_revision: i64,
    pub idempotency_key: String,
    pub request_hash: Vec<u8>,
    pub meters: Vec<MeterView>,
}

/// A period to be closed over a window, from a snapshot at an expected account revision.
#[derive(Debug)]
pub struct ClosePeriod {
    pub caller: String,
    pub actor: String,
    pub organization_id: String,
    pub account_id: String,
    pub period_id: String,
    pub period_start: i128,
    pub period_end: i128,
    pub expected_account_revision: i64,
    pub idempotency_key: String,
    pub request_hash: Vec<u8>,
    pub total_amount_minor: String,
    pub lines: Vec<SnapshotLine>,
}

/// How an attempt at a delivery ended.
#[derive(Debug)]
pub struct Completion {
    pub delivery_id: String,
    pub worker_id: String,
    pub attempt: i32,
    pub status: DeliveryStatus,
    pub provider_reference: Option<String>,
    pub failure_code: Option<String>,
}

/// An administrator's decision about a delivery.
#[derive(Debug)]
pub struct ResolveDelivery {
    pub caller: String,
    pub actor: String,
    pub organization_id: String,
    pub delivery_id: String,
    pub resolution: Resolution,
    pub provider_reference: Option<String>,
    pub reason: String,
    pub idempotency_key: String,
    pub request_hash: Vec<u8>,
}

} // verus!
