//! Records, field by field: the contracts speak of what the fields hold, and what is shown of a row
//! is what the row holds.

use vstd::prelude::*;

use crate::decimal::integer_text;
use crate::error::{DomainFailure, StorageErrorOf, StorageFailure};
use crate::instant::{rfc3339_text, FIRST_SHOWN, LAST_SHOWN};
use crate::laws::deliveries::lemma_place;
use crate::model::{
    models, optional_text, AccountRow, AccountView, AccountViewModel, CommandKey, CommandRow,
    DeliveryClaim, DeliveryView, DeliveryViewModel, LineModel, LineRow, LineView, LineViewModel,
    MeterView, PeriodRow, PeriodView, PeriodViewModel, ResponseOf, SnapshotLine,
};
use crate::store::tables_of;
use crate::rows::{has_key, keys_distinct, lemma_table_get};
use crate::tables::{
    account_outcome, accounts_outcome, delivery_outcome, line, line_at, period_outcome,
    periods_outcome, tables_ok, Tables,
};
use crate::text::Text;

verus! {

// What the contracts speak of.

/// The characters are those of the string, where there is one.
pub open spec fn says(text: Option<Text>, value: Option<String>) -> bool {
    match (text, value) {
        (Some(characters), Some(string)) => characters == string@,
        (None, None) => true,
        _ => false,
    }
}

/// An optional text is spoken of by its characters.
pub proof fn law_optional_texts_are_spoken_of(value: Option<String>)
    ensures
        says(optional_text(value), value),
{
}

/// Rows are spoken of one by one, in their order.
pub proof fn law_rows_are_spoken_of_one_by_one<R: View>(rows: Seq<R>)
    ensures
        models(rows).len() == rows.len(),
        forall|i: int| 0 <= i < rows.len() ==> #[trigger] models(rows)[i] == rows[i]@,
{
}

/// Of a meter mapping the contracts speak by what its fields hold.
pub proof fn law_meters_are_spoken_of(meter: MeterView)
    ensures
        meter@.mapping_id == meter.mapping_id@,
        meter@.source_scope_kind == meter.source_scope_kind@,
        meter@.source_scope_id == meter.source_scope_id@,
        meter@.source_subject == meter.source_subject@,
        meter@.source_meter == meter.source_meter@,
        meter@.sink_meter == meter.sink_meter@,
        meter@.unit_price_minor == meter.unit_price_minor@,
{
}

/// Of an account the contracts speak by what its fields hold, as it is stored and as it is shown.
pub proof fn law_accounts_are_spoken_of(row: AccountRow, view: AccountView)
    ensures
        row@.organization_id == row.organization_id@,
        row@.account_id == row.account_id@,
        row@.scope_kind == row.scope_kind@,
        row@.scope_id == row.scope_id@,
        row@.subject == row.subject@,
        row@.currency == row.currency@,
        row@.status == row.status,
        row@.revision == row.revision,
        row@.created_at == row.created_at,
        row@.updated_at == row.updated_at,
        row@.meters.len() == row.meters@.len(),
        forall|i: int|
            0 <= i < row.meters@.len() ==> #[trigger] row@.meters[i] == row.meters@[i]@,
        view@.organization_id == view.organization_id@,
        view@.account_id == view.account_id@,
        view@.scope_kind == view.scope_kind@,
        view@.scope_id == view.scope_id@,
        view@.subject == view.subject@,
        view@.currency == view.currency@,
        view@.status == view.status,
        view@.revision == view.revision@,
        view@.created_at == view.created_at@,
        view@.updated_at == view.updated_at@,
        view@.meters.len() == view.meters@.len(),
        forall|i: int|
            0 <= i < view.meters@.len() ==> #[trigger] view@.meters[i] == view.meters@[i]@,
{
}

/// Of a period the contracts speak by what its fields hold, as it is stored and as it is shown.
pub proof fn law_periods_are_spoken_of(row: PeriodRow, view: PeriodView)
    ensures
        row@.organization_id == row.organization_id@,
        row@.account_id == row.account_id@,
        row@.period_id == row.period_id@,
        row@.period_start == row.period_start,
        row@.period_end == row.period_end,
        row@.currency == row.currency@,
        row@.status == row.status,
        row@.account_revision == row.account_revision,
        row@.total_amount_minor == row.total_amount_minor@,
        row@.created_at == row.created_at,
        row@.lines.len() == row.lines@.len(),
        forall|i: int| 0 <= i < row.lines@.len() ==> #[trigger] row@.lines[i] == row.lines@[i]@,
        view@.organization_id == view.organization_id@,
        view@.account_id == view.account_id@,
        view@.period_id == view.period_id@,
        view@.period_start == view.period_start@,
        view@.period_end == view.period_end@,
        view@.currency == view.currency@,
        view@.status == view.status,
        view@.account_revision == view.account_revision@,
        view@.total_amount_minor == view.total_amount_minor@,
        view@.created_at == view.created_at@,
        view@.lines.len() == view.lines@.len(),
        forall|i: int| 0 <= i < view.lines@.len() ==> #[trigger] view@.lines[i] == view.lines@[i]@,
{
}

/// Of a line the contracts speak by what its fields hold: as it is handed in, as it is stored and
/// as it is shown.
pub proof fn law_lines_are_spoken_of(handed: SnapshotLine, row: LineRow, view: LineView)
    ensures
        handed@.delivery_id == handed.delivery_id@,
        handed@.mapping_id == handed.mapping_id@,
        handed@.source_meter == handed.source_meter@,
        handed@.sink_meter == handed.sink_meter@,
        handed@.quantity == handed.quantity@,
        handed@.usage_revision == handed.usage_revision,
        handed@.unit_price_minor == handed.unit_price_minor@,
        handed@.amount_minor == handed.amount_minor@,
        row@.delivery_id == row.delivery_id@,
        row@.mapping_id == row.mapping_id@,
        row@.source_meter == row.source_meter@,
        row@.sink_meter == row.sink_meter@,
        row@.quantity == row.quantity@,
        row@.usage_revision == row.usage_revision,
        row@.unit_price_minor == row.unit_price_minor@,
        row@.amount_minor == row.amount_minor@,
        row@.status == row.status,
        row@.attempts == row.attempts,
        says(row@.lease_owner, row.lease_owner),
        row@.lease_expires_at == row.lease_expires_at,
        says(row@.provider_reference, row.provider_reference),
        says(row@.failure_code, row.failure_code),
        row@.updated_at == row.updated_at,
        view@.delivery_id == view.delivery_id@,
        view@.mapping_id == view.mapping_id@,
        view@.source_meter == view.source_meter@,
        view@.sink_meter == view.sink_meter@,
        view@.quantity == view.quantity@,
        view@.usage_revision == view.usage_revision,
        view@.unit_price_minor == view.unit_price_minor@,
        view@.amount_minor == view.amount_minor@,
        view@.status == view.status,
        view@.attempts == view.attempts,
        says(view@.provider_reference, view.provider_reference),
        says(view@.failure_code, view.failure_code),
{
}

/// Of a delivery the contracts speak by what its fields hold, as it is shown and as it is claimed.
pub proof fn law_deliveries_are_spoken_of(view: DeliveryView, claim: DeliveryClaim)
    ensures
        view@.organization_id == view.organization_id@,
        view@.account_id == view.account_id@,
        view@.period_id == view.period_id@,
        view@.delivery_id == view.delivery_id@,
        view@.mapping_id == view.mapping_id@,
        view@.status == view.status,
        view@.attempts == view.attempts,
        says(view@.provider_reference, view.provider_reference),
        says(view@.failure_code, view.failure_code),
        view@.updated_at == view.updated_at@,
        claim@.period_id == claim.period_id@,
        claim@.delivery_id == claim.delivery_id@,
        claim@.scope_kind == claim.scope_kind@,
        claim@.scope_id == claim.scope_id@,
        claim@.subject == claim.subject@,
        claim@.sink_meter == claim.sink_meter@,
        claim@.quantity == claim.quantity@,
        claim@.occurred_at == claim.occurred_at@,
        claim@.attempt == claim.attempt,
{
}

/// Of a command the contracts speak by what its fields hold.
pub proof fn law_commands_are_spoken_of(key: CommandKey, row: CommandRow)
    ensures
        key@.caller == key.caller@,
        key@.actor == key.actor@,
        key@.operation == key.operation,
        key@.idempotency_key == key.idempotency_key@,
        row@.key == row.key@,
        row@.request_hash == row.request_hash@,
        match row.response {
            ResponseOf::Account(view) => row@.response matches ResponseOf::Account(shown) && shown
                == view@,
            ResponseOf::Period(view) => row@.response matches ResponseOf::Period(shown) && shown
                == view@,
            ResponseOf::Delivery(view) => row@.response matches ResponseOf::Delivery(shown)
                && shown == view@,
        },
{
}

/// Rows with different keys are found under their keys, each as it is, and nothing else is found.
pub proof fn law_rows_are_found_under_their_keys(
    accounts: Seq<AccountRow>,
    periods: Seq<PeriodRow>,
    commands: Seq<CommandRow>,
)
    requires
        keys_distinct(models(accounts)),
        keys_distinct(models(periods)),
        keys_distinct(models(commands)),
    ensures
        forall|i: int|
            0 <= i < accounts.len() ==> {
                let t = tables_of(accounts, periods, commands);
                &&& t.accounts.contains_key((#[trigger] accounts[i]).account_id@)
                &&& t.accounts[accounts[i].account_id@] == accounts[i]@
            },
        forall|i: int|
            0 <= i < periods.len() ==> {
                let t = tables_of(accounts, periods, commands);
                &&& t.periods.contains_key((#[trigger] periods[i]).period_id@)
                &&& t.periods[periods[i].period_id@] == periods[i]@
            },
        forall|i: int|
            0 <= i < commands.len() ==> {
                let t = tables_of(accounts, periods, commands);
                &&& t.commands.contains_key((#[trigger] commands[i]).key@)
                &&& t.commands[commands[i].key@] == commands[i]@
            },
        forall|id: Text| #[trigger]
            tables_of(accounts, periods, commands).accounts.contains_key(id) ==> exists|i: int|
                0 <= i < accounts.len() && (#[trigger] accounts[i]).account_id@ == id,
        forall|id: Text| #[trigger]
            tables_of(accounts, periods, commands).periods.contains_key(id) ==> exists|i: int|
                0 <= i < periods.len() && (#[trigger] periods[i]).period_id@ == id,
        forall|key| #[trigger]
            tables_of(accounts, periods, commands).commands.contains_key(key) ==> exists|i: int|
                0 <= i < commands.len() && (#[trigger] commands[i]).key@ == key,
{
    let t = tables_of(accounts, periods, commands);
    let (a, p, c) = (models(accounts), models(periods), models(commands));
    assert forall|i: int| 0 <= i < accounts.len() implies t.accounts.contains_key(
        (#[trigger] accounts[i]).account_id@,
    ) && t.accounts[accounts[i].account_id@] == accounts[i]@ by {
        lemma_table_get(a, i);
    }
    assert forall|i: int| 0 <= i < periods.len() implies t.periods.contains_key(
        (#[trigger] periods[i]).period_id@,
    ) && t.periods[periods[i].period_id@] == periods[i]@ by {
        lemma_table_get(p, i);
    }
    assert forall|i: int| 0 <= i < commands.len() implies t.commands.contains_key(
        (#[trigger] commands[i]).key@,
    ) && t.commands[commands[i].key@] == commands[i]@ by {
        lemma_table_get(c, i);
    }
    assert forall|id: Text| #[trigger] t.accounts.contains_key(id) implies exists|i: int|
        0 <= i < accounts.len() && (#[trigger] accounts[i]).account_id@ == id by {
        assert(has_key(a, id));
        let i = choose|i: int| 0 <= i < a.len() && (#[trigger] a[i]).account_id == id;
        assert(accounts[i].account_id@ == id);
    }
    assert forall|id: Text| #[trigger] t.periods.contains_key(id) implies exists|i: int|
        0 <= i < periods.len() && (#[trigger] periods[i]).period_id@ == id by {
        assert(has_key(p, id));
        let i = choose|i: int| 0 <= i < p.len() && (#[trigger] p[i]).period_id == id;
        assert(periods[i].period_id@ == id);
    }
    assert forall|key| #[trigger] t.commands.contains_key(key) implies exists|i: int|
        0 <= i < commands.len() && (#[trigger] commands[i]).key@ == key by {
        assert(has_key(c, key));
        let i = choose|i: int| 0 <= i < c.len() && (#[trigger] c[i]).key == key;
        assert(commands[i].key@ == key);
    }
}

// What is shown.

/// The instant can be shown.
pub open spec fn can_be_said(nanos: i128) -> bool {
    FIRST_SHOWN <= nanos <= LAST_SHOWN
}

/// An account is read exactly where the organization has it and its instants can be shown, and it
/// is shown as it is stored: the revision in decimal, the instants in RFC 3339.
pub proof fn law_account_is_shown_as_stored(t: Tables, organization_id: Text, account_id: Text)
    ensures
        ({
            let row = t.accounts[account_id];
            let read: Result<AccountViewModel, StorageFailure> = account_outcome(
                t,
                organization_id,
                account_id,
            );
            let own = t.accounts.contains_key(account_id) && row.organization_id
                == organization_id;
            &&& read is Ok <==> own && can_be_said(row.created_at) && can_be_said(row.updated_at)
            &&& !own ==> read == Err::<AccountViewModel, StorageFailure>(
                StorageErrorOf::Domain(DomainFailure::NotFound),
            )
            &&& own && read is Err ==> read->Err_0 is InvalidStored
            &&& read matches Ok(view) ==> {
                &&& view.organization_id == row.organization_id
                &&& view.account_id == row.account_id
                &&& view.scope_kind == row.scope_kind
                &&& view.scope_id == row.scope_id
                &&& view.subject == row.subject
                &&& view.currency == row.currency
                &&& view.status == row.status
                &&& view.revision == integer_text(row.revision as int)
                &&& view.created_at == rfc3339_text(row.created_at)
                &&& view.updated_at == rfc3339_text(row.updated_at)
                &&& view.meters == row.meters
            }
        }),
{
}

/// A line is shown as it is stored: its record, its state, how often it was tried, the provider's
/// reference and the failure code.
pub open spec fn shown_as_stored(view: LineViewModel, row: LineModel) -> bool {
    &&& view.delivery_id == row.delivery_id
    &&& view.mapping_id == row.mapping_id
    &&& view.source_meter == row.source_meter
    &&& view.sink_meter == row.sink_meter
    &&& view.quantity == row.quantity
    &&& view.usage_revision == row.usage_revision
    &&& view.unit_price_minor == row.unit_price_minor
    &&& view.amount_minor == row.amount_minor
    &&& view.status == row.status
    &&& view.attempts == row.attempts
    &&& view.provider_reference == row.provider_reference
    &&& view.failure_code == row.failure_code
}

/// A period is read exactly where the organization has it and its instants can be shown, and it is
/// shown as it is stored, line by line.
pub proof fn law_period_is_shown_as_stored(t: Tables, organization_id: Text, period_id: Text)
    ensures
        ({
            let row = t.periods[period_id];
            let read: Result<PeriodViewModel, StorageFailure> = period_outcome(
                t,
                organization_id,
                period_id,
            );
            let own = t.periods.contains_key(period_id) && row.organization_id == organization_id;
            &&& read is Ok <==> own && can_be_said(row.period_start) && can_be_said(row.period_end)
                && can_be_said(row.created_at)
            &&& !own ==> read == Err::<PeriodViewModel, StorageFailure>(
                StorageErrorOf::Domain(DomainFailure::NotFound),
            )
            &&& own && read is Err ==> read->Err_0 is InvalidStored
            &&& read matches Ok(view) ==> {
                &&& view.organization_id == row.organization_id
                &&& view.account_id == row.account_id
                &&& view.period_id == row.period_id
                &&& view.period_start == rfc3339_text(row.period_start)
                &&& view.period_end == rfc3339_text(row.period_end)
                &&& view.currency == row.currency
                &&& view.status == row.status
                &&& view.account_revision == integer_text(row.account_revision as int)
                &&& view.total_amount_minor == row.total_amount_minor
                &&& view.created_at == rfc3339_text(row.created_at)
                &&& view.lines.len() == row.lines.len()
                &&& forall|i: int|
                    0 <= i < row.lines.len() ==> shown_as_stored(
                        #[trigger] view.lines[i],
                        row.lines[i],
                    )
            }
        }),
{
}

/// A delivery is read exactly where the organization has it and its instant can be shown, and it
/// is shown as its line is stored, with the period that it is of.
pub proof fn law_delivery_is_shown_as_stored(t: Tables, organization_id: Text, id: Text, i: int)
    requires
        tables_ok(t),
        line_at(t, id, i),
    ensures
        ({
            let period = t.periods[id];
            let row = period.lines[i];
            let read: Result<DeliveryViewModel, StorageFailure> = delivery_outcome(
                t,
                organization_id,
                row.delivery_id,
            );
            let own = period.organization_id == organization_id;
            &&& read is Ok <==> own && can_be_said(row.updated_at)
            &&& !own ==> read == Err::<DeliveryViewModel, StorageFailure>(
                StorageErrorOf::Domain(DomainFailure::DeliveryNotFound),
            )
            &&& own && read is Err ==> read->Err_0 is InvalidStored
            &&& read matches Ok(view) ==> {
                &&& view.organization_id == period.organization_id
                &&& view.account_id == period.account_id
                &&& view.period_id == period.period_id
                &&& view.delivery_id == row.delivery_id
                &&& view.mapping_id == row.mapping_id
                &&& view.status == row.status
                &&& view.attempts == row.attempts
                &&& view.provider_reference == row.provider_reference
                &&& view.failure_code == row.failure_code
                &&& view.updated_at == rfc3339_text(row.updated_at)
            }
        }),
{
    lemma_place(t, id, i);
}

/// A delivery that no line has is not found.
pub proof fn law_unstored_delivery_is_not_found(
    t: Tables,
    organization_id: Text,
    delivery_id: Text,
)
    requires
        forall|id: Text, i: int| #[trigger]
            line_at(t, id, i) ==> line(t, id, i).delivery_id != delivery_id,
    ensures
        delivery_outcome(t, organization_id, delivery_id) == Err::<
            DeliveryViewModel,
            StorageFailure,
        >(StorageErrorOf::Domain(DomainFailure::DeliveryNotFound)),
{
}

/// A delivery that is inspected shows the same as its line in the period that is read.
pub proof fn law_inspection_agrees_with_the_period(
    t: Tables,
    organization_id: Text,
    id: Text,
    i: int,
)
    requires
        tables_ok(t),
        line_at(t, id, i),
        period_outcome(t, organization_id, id) is Ok,
        delivery_outcome(t, organization_id, line(t, id, i).delivery_id) is Ok,
    ensures
        ({
            let period = period_outcome(t, organization_id, id)->Ok_0;
            let view = delivery_outcome(t, organization_id, line(t, id, i).delivery_id)->Ok_0;
            &&& view.organization_id == period.organization_id
            &&& view.account_id == period.account_id
            &&& view.period_id == period.period_id
            &&& view.delivery_id == period.lines[i].delivery_id
            &&& view.mapping_id == period.lines[i].mapping_id
            &&& view.status == period.lines[i].status
            &&& view.attempts == period.lines[i].attempts
            &&& view.provider_reference == period.lines[i].provider_reference
            &&& view.failure_code == period.lines[i].failure_code
        }),
{
    law_period_is_shown_as_stored(t, organization_id, id);
    law_delivery_is_shown_as_stored(t, organization_id, id, i);
}

/// Listed accounts are the accounts with these ids, in this order, each as it is read alone.
pub proof fn law_accounts_are_listed_as_they_are_read(
    t: Tables,
    organization_id: Text,
    ids: Seq<Text>,
)
    ensures
        accounts_outcome(t, organization_id, ids) is Ok <==> forall|i: int|
            0 <= i < ids.len() ==> account_outcome(t, organization_id, #[trigger] ids[i]) is Ok,
        accounts_outcome(t, organization_id, ids) matches Ok(listed) ==> {
            &&& listed.len() == ids.len()
            &&& forall|i: int|
                0 <= i < ids.len() ==> account_outcome(t, organization_id, ids[i]) == Ok::<
                    AccountViewModel,
                    StorageFailure,
                >(#[trigger] listed[i])
        },
    decreases ids.len(),
{
    if ids.len() > 0 {
        let front = ids.drop_last();
        law_accounts_are_listed_as_they_are_read(t, organization_id, front);
        assert(forall|i: int| 0 <= i < front.len() ==> #[trigger] front[i] == ids[i]);
        if accounts_outcome(t, organization_id, front) is Ok {
            assert forall|i: int| 0 <= i < front.len() implies account_outcome(
                t,
                organization_id,
                #[trigger] ids[i],
            ) is Ok by {
                assert(account_outcome(t, organization_id, front[i]) is Ok);
            }
        } else {
            let i = choose|i: int|
                0 <= i < front.len() && account_outcome(t, organization_id, #[trigger] front[i])
                    is Err;
            assert(account_outcome(t, organization_id, ids[i]) is Err);
        }
        if let Ok(listed) = accounts_outcome(t, organization_id, ids) {
            let before = accounts_outcome(t, organization_id, front)->Ok_0;
            assert forall|i: int| 0 <= i < ids.len() implies account_outcome(
                t,
                organization_id,
                ids[i],
            ) == Ok::<AccountViewModel, StorageFailure>(#[trigger] listed[i]) by {
                if i < front.len() {
                    assert(listed[i] == before[i] && ids[i] == front[i]);
                }
            }
        }
    }
}

/// Listed periods are the periods with these ids, in this order, each as it is read alone.
pub proof fn law_periods_are_listed_as_they_are_read(
    t: Tables,
    organization_id: Text,
    ids: Seq<Text>,
)
    ensures
        periods_outcome(t, organization_id, ids) is Ok <==> forall|i: int|
            0 <= i < ids.len() ==> period_outcome(t, organization_id, #[trigger] ids[i]) is Ok,
        periods_outcome(t, organization_id, ids) matches Ok(listed) ==> {
            &&& listed.len() == ids.len()
            &&& forall|i: int|
                0 <= i < ids.len() ==> period_outcome(t, organization_id, ids[i]) == Ok::<
                    PeriodViewModel,
                    StorageFailure,
                >(#[trigger] listed[i])
        },
    decreases ids.len(),
{
    if ids.len() > 0 {
        let front = ids.drop_last();
        law_periods_are_listed_as_they_are_read(t, organization_id, front);
        assert(forall|i: int| 0 <= i < front.len() ==> #[trigger] front[i] == ids[i]);
        if periods_outcome(t, organization_id, front) is Ok {
            assert forall|i: int| 0 <= i < front.len() implies period_outcome(
                t,
                organization_id,
                #[trigger] ids[i],
            ) is Ok by {
                assert(period_outcome(t, organization_id, front[i]) is Ok);
            }
        } else {
            let i = choose|i: int|
                0 <= i < front.len() && period_outcome(t, organization_id, #[trigger] front[i])
                    is Err;
            assert(period_outcome(t, organization_id, ids[i]) is Err);
        }
        if let Ok(listed) = periods_outcome(t, organization_id, ids) {
            let before = periods_outcome(t, organization_id, front)->Ok_0;
            assert forall|i: int| 0 <= i < ids.len() implies period_outcome(
                t,
                organization_id,
                ids[i],
            ) == Ok::<PeriodViewModel, StorageFailure>(#[trigger] listed[i]) by {
                if i < front.len() {
                    assert(listed[i] == before[i] && ids[i] == front[i]);
                }
            }
        }
    }
}

} // verus!
