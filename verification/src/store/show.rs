//! Rows as they are shown.

use vstd::prelude::*;

use crate::decimal::i64_to_text;
use crate::error::{StorageError, StorageErrorOf, StorageFailure};
use crate::instant::{format_rfc3339, instant_text};
use crate::model::{
    copy_meters, copy_optional, models, AccountRow, AccountView, AccountViewOf, DeliveryView,
    DeliveryViewOf, LineRow, LineView, LineViewOf, PeriodRow, PeriodView, PeriodViewOf,
};
use crate::store::answers;
use crate::tables::{account_shown, delivery_shown, line_shown, lines_shown, period_shown};

verus! {

fn format_time(nanos: i128) -> (r: Result<String, StorageError>)
    ensures
        match instant_text(nanos) {
            Ok(text) => r is Ok && r->Ok_0@ == text,
            Err(message) => r is Err && r->Err_0@ == (StorageFailure::InvalidStored(message)),
        },
{
    match format_rfc3339(nanos) {
        Ok(text) => Ok(text),
        Err(message) => Err(StorageErrorOf::InvalidStored(message)),
    }
}

pub(crate) fn show_account(row: &AccountRow) -> (r: Result<AccountView, StorageError>)
    ensures
        answers(r, account_shown(row@)),
{
    let created_at = match format_time(row.created_at) {
        Ok(text) => text,
        Err(error) => {
            return Err(error);
        },
    };
    let updated_at = match format_time(row.updated_at) {
        Ok(text) => text,
        Err(error) => {
            return Err(error);
        },
    };
    Ok(
        AccountViewOf {
            organization_id: row.organization_id.clone(),
            account_id: row.account_id.clone(),
            scope_kind: row.scope_kind.clone(),
            scope_id: row.scope_id.clone(),
            subject: row.subject.clone(),
            currency: row.currency.clone(),
            status: row.status,
            revision: i64_to_text(row.revision),
            created_at,
            updated_at,
            meters: copy_meters(&row.meters),
        },
    )
}

fn show_line(row: &LineRow) -> (r: LineView)
    ensures
        r@ == line_shown(row@),
{
    LineViewOf {
        delivery_id: row.delivery_id.clone(),
        mapping_id: row.mapping_id.clone(),
        source_meter: row.source_meter.clone(),
        sink_meter: row.sink_meter.clone(),
        quantity: row.quantity.clone(),
        usage_revision: row.usage_revision,
        unit_price_minor: row.unit_price_minor.clone(),
        amount_minor: row.amount_minor.clone(),
        status: row.status,
        attempts: row.attempts as i64,
        provider_reference: copy_optional(&row.provider_reference),
        failure_code: copy_optional(&row.failure_code),
    }
}

pub(crate) fn show_period(row: &PeriodRow) -> (r: Result<PeriodView, StorageError>)
    ensures
        answers(r, period_shown(row@)),
{
    let mut lines: Vec<LineView> = Vec::new();
    let mut i: usize = 0;
    while i < row.lines.len()
        invariant
            i <= row.lines.len(),
            lines.len() == i,
            forall|j: int| 0 <= j < i ==> (#[trigger] lines@[j])@ == line_shown(row.lines@[j]@),
        decreases row.lines.len() - i,
    {
        lines.push(show_line(&row.lines[i]));
        i = i + 1;
    }
    assert(models(lines@) =~= lines_shown(models(row.lines@)));
    let period_start = match format_time(row.period_start) {
        Ok(text) => text,
        Err(error) => {
            return Err(error);
        },
    };
    let period_end = match format_time(row.period_end) {
        Ok(text) => text,
        Err(error) => {
            return Err(error);
        },
    };
    let created_at = match format_time(row.created_at) {
        Ok(text) => text,
        Err(error) => {
            return Err(error);
        },
    };
    Ok(
        PeriodViewOf {
            organization_id: row.organization_id.clone(),
            account_id: row.account_id.clone(),
            period_id: row.period_id.clone(),
            period_start,
            period_end,
            currency: row.currency.clone(),
            status: row.status,
            account_revision: i64_to_text(row.account_revision),
            total_amount_minor: row.total_amount_minor.clone(),
            created_at,
            lines,
        },
    )
}

pub(crate) fn show_delivery(period: &PeriodRow, line: &LineRow) -> (r: Result<
    DeliveryView,
    StorageError,
>)
    ensures
        answers(r, delivery_shown(period@, line@)),
{
    let updated_at = match format_time(line.updated_at) {
        Ok(text) => text,
        Err(error) => {
            return Err(error);
        },
    };
    Ok(
        DeliveryViewOf {
            organization_id: period.organization_id.clone(),
            account_id: period.account_id.clone(),
            period_id: period.period_id.clone(),
            delivery_id: line.delivery_id.clone(),
            mapping_id: line.mapping_id.clone(),
            status: line.status,
            attempts: line.attempts as i64,
            provider_reference: copy_optional(&line.provider_reference),
            failure_code: copy_optional(&line.failure_code),
            updated_at,
        },
    )
}

} // verus!
