//! Periods: immutable snapshots that never overlap.

use vstd::prelude::*;

use crate::decimal::{integer_text, integer_value};
use crate::error::{DomainFailure, StorageFailure};
use crate::input::ClosePeriod;
use crate::instant::{kept_instant, law_kept_instant_is_the_microsecond, rfc3339_text};
use crate::laws::records::{can_be_said, law_period_is_shown_as_stored};
use crate::laws::{
    after, after_all, law_events_keep_tables_consistent, law_lines_change_only_by_rule,
    lemma_claim_place, lemma_given_up_lines, Event,
};
use crate::model::{
    models, AccountStatus, CommandKeyModel, CommandKeyOf, DeliveryStatus, LineModel, LineViewModel,
    Operation, PeriodModel, PeriodStatus, PeriodViewModel, ResponseModel, SnapshotLine,
    SnapshotLineModel,
};
use crate::order::{in_order, law_rows_are_put_in_order, placed, text_less};
use crate::snapshot::{
    close_input, law_closed_snapshot_is_handed_over, law_line_is_usage_times_price,
    law_total_is_exact, priced_usage, snapshot_line, snapshot_lines, total_of, SnapshotModel,
    UsageModel,
};
use crate::tables::{
    account_overlaps, anything_to_claim, close_key, close_outcome, close_row, delivery_ids_taken,
    delivery_place, delivery_stored, fresh_line, fresh_lines, holds_status, line, line_at,
    period_outcome, period_shown, refused, status_of, tables_given_up, tables_ok, windows_overlap,
    Tables,
};
use crate::text::Text;

verus! {

/// The two lines record the same usage under the same delivery id.
pub open spec fn same_record(a: LineModel, b: LineModel) -> bool {
    &&& a.delivery_id == b.delivery_id
    &&& a.mapping_id == b.mapping_id
    &&& a.source_meter == b.source_meter
    &&& a.sink_meter == b.sink_meter
    &&& a.quantity == b.quantity
    &&& a.usage_revision == b.usage_revision
    &&& a.unit_price_minor == b.unit_price_minor
    &&& a.amount_minor == b.amount_minor
}

/// The two periods are the same snapshot; only how far its deliveries have come may differ.
pub open spec fn same_snapshot(a: PeriodModel, b: PeriodModel) -> bool {
    &&& a.organization_id == b.organization_id
    &&& a.account_id == b.account_id
    &&& a.period_id == b.period_id
    &&& a.period_start == b.period_start
    &&& a.period_end == b.period_end
    &&& a.currency == b.currency
    &&& a.account_revision == b.account_revision
    &&& a.total_amount_minor == b.total_amount_minor
    &&& a.created_at == b.created_at
    &&& a.lines.len() == b.lines.len()
    &&& forall|i: int| 0 <= i < a.lines.len() ==> same_record(#[trigger] a.lines[i], b.lines[i])
}

/// The two lines show the same record.
pub open spec fn same_record_shown(a: LineViewModel, b: LineViewModel) -> bool {
    &&& a.delivery_id == b.delivery_id
    &&& a.mapping_id == b.mapping_id
    &&& a.source_meter == b.source_meter
    &&& a.sink_meter == b.sink_meter
    &&& a.quantity == b.quantity
    &&& a.usage_revision == b.usage_revision
    &&& a.unit_price_minor == b.unit_price_minor
    &&& a.amount_minor == b.amount_minor
}

/// The two views show the same snapshot; only how far its deliveries have come may differ.
pub open spec fn same_snapshot_shown(a: PeriodViewModel, b: PeriodViewModel) -> bool {
    &&& a.organization_id == b.organization_id
    &&& a.account_id == b.account_id
    &&& a.period_id == b.period_id
    &&& a.period_start == b.period_start
    &&& a.period_end == b.period_end
    &&& a.currency == b.currency
    &&& a.account_revision == b.account_revision
    &&& a.total_amount_minor == b.total_amount_minor
    &&& a.created_at == b.created_at
    &&& a.lines.len() == b.lines.len()
    &&& forall|i: int|
        0 <= i < a.lines.len() ==> same_record_shown(#[trigger] a.lines[i], b.lines[i])
}

/// Periods that are the same snapshot are shown as the same snapshot.
pub(crate) proof fn lemma_snapshot_shown(a: PeriodModel, b: PeriodModel)
    requires
        same_snapshot(a, b),
    ensures
        period_shown(a) is Ok <==> period_shown(b) is Ok,
        period_shown(a) is Ok ==> same_snapshot_shown(period_shown(a)->Ok_0, period_shown(b)->Ok_0),
{
    if period_shown(a) is Ok {
        let (x, y) = (period_shown(a)->Ok_0, period_shown(b)->Ok_0);
        assert forall|i: int| 0 <= i < x.lines.len() implies same_record_shown(
            #[trigger] x.lines[i],
            y.lines[i],
        ) by {
            assert(same_record(a.lines[i], b.lines[i]));
        }
    }
}

/// A closed period is never removed and what it records never changes.
pub proof fn law_snapshots_are_immutable(t: Tables, event: Event, id: Text)
    requires
        tables_ok(t),
        t.periods.contains_key(id),
    ensures
        after(t, event).periods.contains_key(id),
        same_snapshot(t.periods[id], after(t, event).periods[id]),
{
    law_lines_change_only_by_rule(t, event);
    let (a, b) = (t.periods[id], after(t, event).periods[id]);
    match event {
        Event::Claim { worker_id, lease_seconds, max_attempts, held, now } => {
            if anything_to_claim(t, held, max_attempts, now) {
                let place = lemma_claim_place(
                    t,
                    worker_id,
                    lease_seconds,
                    max_attempts,
                    held,
                    now,
                );
            }
        },
        _ => {},
    }
    assert forall|i: int| 0 <= i < a.lines.len() implies same_record(
        #[trigger] a.lines[i],
        b.lines[i],
    ) by {
        assert(line_at(t, id, i));
        assert(line(t, id, i) == a.lines[i] && line(after(t, event), id, i) == b.lines[i]);
    }
}

/// A closed period records the same through any history.
pub proof fn law_snapshots_outlive_histories(t: Tables, events: Seq<Event>, id: Text)
    requires
        tables_ok(t),
        t.periods.contains_key(id),
    ensures
        tables_ok(after_all(t, events)),
        after_all(t, events).periods.contains_key(id),
        same_snapshot(t.periods[id], after_all(t, events).periods[id]),
    decreases events.len(),
{
    if events.len() > 0 {
        let u = after_all(t, events.drop_last());
        law_snapshots_outlive_histories(t, events.drop_last(), id);
        law_events_keep_tables_consistent(u, events.last());
        law_snapshots_are_immutable(u, events.last(), id);
        let (a, b, c) = (t.periods[id], u.periods[id], after(u, events.last()).periods[id]);
        assert forall|i: int| 0 <= i < a.lines.len() implies same_record(
            #[trigger] a.lines[i],
            c.lines[i],
        ) by {
            assert(same_record(a.lines[i], b.lines[i]));
            assert(same_record(b.lines[i], c.lines[i]));
        }
    }
}

/// No two periods of one account share time.
pub open spec fn periods_apart(t: Tables) -> bool {
    forall|a: Text, b: Text|
        #[trigger] t.periods.contains_key(a) && #[trigger] t.periods.contains_key(b) && a != b
            && t.periods[a].account_id == t.periods[b].account_id ==> !windows_overlap(
            t.periods[a].period_start,
            t.periods[a].period_end,
            t.periods[b].period_start,
            t.periods[b].period_end,
        )
}

/// Periods of one account never come to overlap.
pub proof fn law_periods_stay_apart(t: Tables, event: Event)
    requires
        tables_ok(t),
        periods_apart(t),
    ensures
        periods_apart(after(t, event)),
{
    let u = after(t, event);
    assert forall|a: Text, b: Text|
        #[trigger] u.periods.contains_key(a) && #[trigger] u.periods.contains_key(b) && a != b
            && u.periods[a].account_id == u.periods[b].account_id implies !windows_overlap(
        u.periods[a].period_start,
        u.periods[a].period_end,
        u.periods[b].period_start,
        u.periods[b].period_end,
    ) by {
        if t.periods.contains_key(a) {
            law_snapshots_are_immutable(t, event, a);
        }
        if t.periods.contains_key(b) {
            law_snapshots_are_immutable(t, event, b);
        }
        match event {
            Event::Close { input, now } => {
                let row = close_row(t, input, now)->Ok_0;
                if !t.periods.contains_key(a) || !t.periods.contains_key(b) {
                    assert(!account_overlaps(t, row.account_id, row.period_start, row.period_end));
                }
            },
            Event::Claim { worker_id, lease_seconds, max_attempts, held, now } => {
                if anything_to_claim(t, held, max_attempts, now) {
                    let place = lemma_claim_place(
                        t,
                        worker_id,
                        lease_seconds,
                        max_attempts,
                        held,
                        now,
                    );
                    assert(line_at(t, place.0, place.1));
                }
            },
            Event::Complete { input, now } => {
                if delivery_stored(t, input.delivery_id@) {
                    let place = delivery_place(t, input.delivery_id@);
                    assert(line_at(t, place.0, place.1));
                }
            },
            Event::Resolve { input, now } => {
                if delivery_stored(t, input.delivery_id@) {
                    let place = delivery_place(t, input.delivery_id@);
                    assert(line_at(t, place.0, place.1));
                }
            },
            _ => {},
        }
    }
}

/// A window that shares time with a period of the account cannot be closed.
pub proof fn law_overlapping_close_is_refused(t: Tables, input: ClosePeriod, now: i128)
    requires
        !t.commands.contains_key(close_key(input)),
        t.accounts.contains_key(input.account_id@),
        t.accounts[input.account_id@].organization_id == input.organization_id@,
        t.accounts[input.account_id@].status == AccountStatus::Active,
        t.accounts[input.account_id@].revision == input.expected_account_revision,
        account_overlaps(
            t,
            input.account_id@,
            kept_instant(input.period_start as int) as i128,
            kept_instant(input.period_end as int) as i128,
        ),
    ensures
        close_outcome(t, input, now) is Err,
        close_outcome(t, input, now)->Err_0 == refused(DomainFailure::PeriodConflict),
{
}

/// A close that writes records one coherent state of the account: its revision is the expected
/// one, and with it come its currency and the whole snapshot, every line of it pending. What the
/// close answers is what is read afterwards.
pub proof fn law_close_records_one_revision(t: Tables, input: ClosePeriod, now: i128)
    requires
        tables_ok(t),
        !t.commands.contains_key(close_key(input)),
        close_outcome(t, input, now) is Ok,
    ensures
        ({
            let (u, view) = close_outcome(t, input, now)->Ok_0;
            let row = u.periods[input.period_id@];
            let account = t.accounts[input.account_id@];
            &&& period_outcome(u, input.organization_id@, input.period_id@) is Ok
            &&& period_outcome(u, input.organization_id@, input.period_id@)->Ok_0 == view
            &&& !t.periods.contains_key(input.period_id@)
            &&& t.accounts.contains_key(input.account_id@)
            &&& account.organization_id == input.organization_id@
            &&& account.status == AccountStatus::Active
            &&& account.revision == input.expected_account_revision
            &&& row.account_revision == account.revision
            &&& row.currency == account.currency
            &&& row.total_amount_minor == input.total_amount_minor@
            &&& row.lines == fresh_lines(in_order::<SnapshotLine>(models(input.lines@)), now)
            &&& u.accounts == t.accounts
        }),
{
}

/// The status of every period follows the states of its lines.
pub open spec fn statuses_follow(t: Tables) -> bool {
    forall|id: Text| #[trigger]
        t.periods.contains_key(id) ==> t.periods[id].status == status_of(t.periods[id].lines)
}

/// Taking on one more line leaves the status that follows the lines as it is.
proof fn lemma_status_of_claimed(before: Seq<LineModel>, i: int, taken: LineModel)
    requires
        0 <= i < before.len(),
        before[i].status == DeliveryStatus::Pending || before[i].status == DeliveryStatus::InFlight,
        taken.status == DeliveryStatus::InFlight,
    ensures
        status_of(before.update(i, taken)) == status_of(before),
{
    let after = before.update(i, taken);
    assert forall|status: DeliveryStatus|
        status == DeliveryStatus::Unknown || status == DeliveryStatus::Failed implies (
    #[trigger] holds_status(after, status) <==> holds_status(
        before,
        status,
    )) by {
        if holds_status(after, status) {
            let j = choose|j: int| 0 <= j < after.len() && (#[trigger] after[j]).status == status;
            assert(before[j].status == status);
        }
        if holds_status(before, status) {
            let j = choose|j: int| 0 <= j < before.len() && (#[trigger] before[j]).status == status;
            assert(after[j].status == status);
        }
    }
    assert(after[i].status != DeliveryStatus::Delivered);
    assert(before[i].status != DeliveryStatus::Delivered);
}

/// The status of every period goes on following the states of its lines.
pub proof fn law_period_status_follows_lines(t: Tables, event: Event)
    requires
        tables_ok(t),
        statuses_follow(t),
    ensures
        statuses_follow(after(t, event)),
{
    let u = after(t, event);
    match event {
        Event::Close { input, now } => {
            if u.periods != t.periods {
                let row = close_row(t, input, now)->Ok_0;
                if row.lines.len() > 0 {
                    assert(row.lines[0].status == DeliveryStatus::Pending);
                }
                assert(row.status == status_of(row.lines));
            }
        },
        Event::Claim { worker_id, lease_seconds, max_attempts, held, now } => {
            let g = tables_given_up(t, max_attempts, now);
            lemma_given_up_lines(t, max_attempts, now);
            assert(statuses_follow(g));
            if anything_to_claim(t, held, max_attempts, now) {
                let place = lemma_claim_place(
                    t,
                    worker_id,
                    lease_seconds,
                    max_attempts,
                    held,
                    now,
                );
                let (id, i) = place;
                assert(line_at(t, id, i));
                assert(line(g, id, i) == line(t, id, i));
                if u != t {
                    lemma_status_of_claimed(g.periods[id].lines, i, line(u, id, i));
                }
            }
        },
        _ => {},
    }
}

/// The status of every period follows the states of its lines through any history.
pub proof fn law_period_statuses_follow_through_histories(t: Tables, events: Seq<Event>)
    requires
        tables_ok(t),
        statuses_follow(t),
    ensures
        tables_ok(after_all(t, events)),
        statuses_follow(after_all(t, events)),
    decreases events.len(),
{
    if events.len() > 0 {
        let u = after_all(t, events.drop_last());
        law_period_statuses_follow_through_histories(t, events.drop_last());
        law_events_keep_tables_consistent(u, events.last());
        law_period_status_follows_lines(u, events.last());
    }
}

/// The lines of every period stand in the order of their mapping ids.
pub open spec fn lines_ordered(t: Tables) -> bool {
    forall|id: Text, i: int, j: int|
        #![trigger line_at(t, id, i), line_at(t, id, j)]
        line_at(t, id, i) && line_at(t, id, j) && i < j ==> !text_less(
            line(t, id, j).mapping_id,
            line(t, id, i).mapping_id,
        )
}

/// The lines of every period stay in the order of their mapping ids.
pub proof fn law_lines_stay_in_order(t: Tables, event: Event)
    requires
        tables_ok(t),
        lines_ordered(t),
    ensures
        lines_ordered(after(t, event)),
{
    let u = after(t, event);
    assert forall|id: Text, i: int, j: int|
        #![trigger line_at(u, id, i), line_at(u, id, j)]
        line_at(u, id, i) && line_at(u, id, j) && i < j implies !text_less(
        line(u, id, j).mapping_id,
        line(u, id, i).mapping_id,
    ) by {
        if t.periods.contains_key(id) {
            law_snapshots_are_immutable(t, event, id);
            let (a, b) = (t.periods[id], u.periods[id]);
            assert(line_at(t, id, i) && line_at(t, id, j));
            assert(same_record(a.lines[i], b.lines[i]));
            assert(same_record(a.lines[j], b.lines[j]));
        } else {
            lemma_only_a_close_adds(t, event, id);
            let input = event->Close_input;
            let rows = in_order::<SnapshotLine>(models(input.lines@));
            law_rows_are_put_in_order::<SnapshotLine>(models(input.lines@));
            assert(line(u, id, i) == fresh_line(rows[i], event->Close_now));
            assert(line(u, id, j) == fresh_line(rows[j], event->Close_now));
        }
    }
}

/// A period that was not there before was closed just now.
proof fn lemma_only_a_close_adds(t: Tables, event: Event, id: Text)
    requires
        tables_ok(t),
        !t.periods.contains_key(id),
        after(t, event).periods.contains_key(id),
    ensures
        event is Close,
        close_row(t, event->Close_input, event->Close_now) is Ok,
        after(t, event).periods[id] == close_row(t, event->Close_input, event->Close_now)->Ok_0,
{
    match event {
        Event::Claim { worker_id, lease_seconds, max_attempts, held, now } => {
            if anything_to_claim(t, held, max_attempts, now) {
                let place = lemma_claim_place(
                    t,
                    worker_id,
                    lease_seconds,
                    max_attempts,
                    held,
                    now,
                );
                assert(line_at(t, place.0, place.1));
            }
        },
        Event::Complete { input, now } => {
            if delivery_stored(t, input.delivery_id@) {
                let place = delivery_place(t, input.delivery_id@);
                assert(line_at(t, place.0, place.1));
            }
        },
        Event::Resolve { input, now } => {
            if delivery_stored(t, input.delivery_id@) {
                let place = delivery_place(t, input.delivery_id@);
                assert(line_at(t, place.0, place.1));
            }
        },
        _ => {},
    }
}

/// Every period belongs to an account, and has its organization.
pub open spec fn periods_belong(t: Tables) -> bool {
    forall|id: Text| #[trigger]
        t.periods.contains_key(id) ==> {
            &&& t.accounts.contains_key(t.periods[id].account_id)
            &&& t.accounts[t.periods[id].account_id].organization_id
                == t.periods[id].organization_id
        }
}

/// No period is ever left without its account.
pub proof fn law_periods_keep_their_accounts(t: Tables, event: Event)
    requires
        tables_ok(t),
        periods_belong(t),
    ensures
        periods_belong(after(t, event)),
{
    let u = after(t, event);
    assert forall|id: Text| #[trigger] u.periods.contains_key(id) implies u.accounts.contains_key(
        u.periods[id].account_id,
    ) && u.accounts[u.periods[id].account_id].organization_id
        == u.periods[id].organization_id by {
        if t.periods.contains_key(id) {
            law_snapshots_are_immutable(t, event, id);
        }
        match event {
            Event::Claim { worker_id, lease_seconds, max_attempts, held, now } => {
                if anything_to_claim(t, held, max_attempts, now) {
                    let place = lemma_claim_place(
                        t,
                        worker_id,
                        lease_seconds,
                        max_attempts,
                        held,
                        now,
                    );
                    assert(line_at(t, place.0, place.1));
                }
            },
            Event::Complete { input, now } => {
                if delivery_stored(t, input.delivery_id@) {
                    let place = delivery_place(t, input.delivery_id@);
                    assert(line_at(t, place.0, place.1));
                }
            },
            Event::Resolve { input, now } => {
                if delivery_stored(t, input.delivery_id@) {
                    let place = delivery_place(t, input.delivery_id@);
                    assert(line_at(t, place.0, place.1));
                }
            },
            _ => {},
        }
    }
}

// What a close keeps.

/// The stored line records what was handed in.
pub open spec fn keeps(row: LineModel, handed: SnapshotLineModel) -> bool {
    &&& row.delivery_id == handed.delivery_id
    &&& row.mapping_id == handed.mapping_id
    &&& row.source_meter == handed.source_meter
    &&& row.sink_meter == handed.sink_meter
    &&& row.quantity == handed.quantity
    &&& row.usage_revision == handed.usage_revision
    &&& row.unit_price_minor == handed.unit_price_minor
    &&& row.amount_minor == handed.amount_minor
}

/// The line that is shown records what was handed in.
pub open spec fn shows(view: LineViewModel, handed: SnapshotLineModel) -> bool {
    &&& view.delivery_id == handed.delivery_id
    &&& view.mapping_id == handed.mapping_id
    &&& view.source_meter == handed.source_meter
    &&& view.sink_meter == handed.sink_meter
    &&& view.quantity == handed.quantity
    &&& view.usage_revision == handed.usage_revision
    &&& view.unit_price_minor == handed.unit_price_minor
    &&& view.amount_minor == handed.amount_minor
}

/// The sum of the whole numbers that the texts stand for.
pub open spec fn sum_of(amounts: Seq<Text>) -> int
    decreases amounts.len(),
{
    if amounts.len() == 0 {
        0
    } else {
        sum_of(amounts.drop_last()) + integer_value(amounts.last())->0
    }
}

pub open spec fn handed_amounts(lines: Seq<SnapshotLineModel>) -> Seq<Text> {
    Seq::new(lines.len(), |i: int| lines[i].amount_minor)
}

pub open spec fn stored_amounts(lines: Seq<LineModel>) -> Seq<Text> {
    Seq::new(lines.len(), |i: int| lines[i].amount_minor)
}

pub open spec fn shown_amounts(lines: Seq<LineViewModel>) -> Seq<Text> {
    Seq::new(lines.len(), |i: int| lines[i].amount_minor)
}

proof fn lemma_sum_with_one_more(rows: Seq<SnapshotLineModel>, row: SnapshotLineModel)
    ensures
        sum_of(handed_amounts(rows.push(row))) == sum_of(handed_amounts(rows)) + integer_value(
            row.amount_minor,
        )->0,
{
    assert(handed_amounts(rows.push(row)).drop_last() =~= handed_amounts(rows));
}

proof fn lemma_sum_of_placed(rows: Seq<SnapshotLineModel>, row: SnapshotLineModel)
    ensures
        sum_of(handed_amounts(placed::<SnapshotLine>(rows, row))) == sum_of(handed_amounts(rows))
            + integer_value(row.amount_minor)->0,
    decreases rows.len(),
{
    if rows.len() == 0 || !text_less(row.mapping_id, rows.last().mapping_id) {
        lemma_sum_with_one_more(rows, row);
    } else {
        lemma_sum_of_placed(rows.drop_last(), row);
        lemma_sum_with_one_more(placed::<SnapshotLine>(rows.drop_last(), row), rows.last());
        lemma_sum_with_one_more(rows.drop_last(), rows.last());
        assert(rows.drop_last().push(rows.last()) =~= rows);
    }
}

/// Putting lines in order does not change their sum.
proof fn lemma_sum_in_order(rows: Seq<SnapshotLineModel>)
    ensures
        sum_of(handed_amounts(in_order::<SnapshotLine>(rows))) == sum_of(handed_amounts(rows)),
    decreases rows.len(),
{
    if rows.len() > 0 {
        lemma_sum_in_order(rows.drop_last());
        lemma_sum_of_placed(in_order::<SnapshotLine>(rows.drop_last()), rows.last());
        lemma_sum_with_one_more(rows.drop_last(), rows.last());
        assert(rows.drop_last().push(rows.last()) =~= rows);
    } else {
        assert(in_order::<SnapshotLine>(rows) =~= rows);
    }
}

/// Lines in order are the same lines.
proof fn lemma_in_order_has_the_same(rows: Seq<SnapshotLineModel>)
    ensures
        forall|i: int|
            0 <= i < rows.len() ==> in_order::<SnapshotLine>(rows).contains(#[trigger] rows[i]),
        forall|i: int|
            0 <= i < rows.len() ==> rows.contains(#[trigger] in_order::<SnapshotLine>(rows)[i]),
        in_order::<SnapshotLine>(rows).len() == rows.len(),
{
    broadcast use vstd::seq_lib::group_to_multiset_ensures;

    law_rows_are_put_in_order::<SnapshotLine>(rows);
    let sorted = in_order::<SnapshotLine>(rows);
    assert forall|i: int| 0 <= i < rows.len() implies sorted.contains(#[trigger] rows[i]) by {
        assert(rows.contains(rows[i]));
        assert(rows.to_multiset().count(rows[i]) > 0);
        assert(sorted.to_multiset().count(rows[i]) > 0);
    }
    assert forall|i: int| 0 <= i < rows.len() implies rows.contains(#[trigger] sorted[i]) by {
        assert(sorted.contains(sorted[i]));
        assert(sorted.to_multiset().count(sorted[i]) > 0);
        assert(rows.to_multiset().count(sorted[i]) > 0);
    }
}

/// A close that writes keeps every line that it was handed, once and as it was handed, and no
/// other line; it shows them so; and they are still to be delivered.
pub proof fn law_close_keeps_every_line(t: Tables, input: ClosePeriod, now: i128)
    requires
        !t.commands.contains_key(close_key(input)),
        close_outcome(t, input, now) is Ok,
    ensures
        ({
            let (u, view) = close_outcome(t, input, now)->Ok_0;
            let rows = u.periods[input.period_id@].lines;
            let handed = models(input.lines@);
            &&& u.periods.contains_key(input.period_id@)
            &&& rows.len() == handed.len()
            &&& view.lines.len() == handed.len()
            &&& forall|k: int|
                0 <= k < handed.len() ==> exists|i: int|
                    0 <= i < rows.len() && keeps(#[trigger] rows[i], #[trigger] handed[k]) && shows(
                        view.lines[i],
                        handed[k],
                    )
            &&& forall|i: int|
                0 <= i < rows.len() ==> exists|k: int|
                    0 <= k < handed.len() && keeps(#[trigger] rows[i], #[trigger] handed[k])
                        && shows(view.lines[i], handed[k])
            &&& forall|i: int, j: int|
                0 <= i < rows.len() && 0 <= j < rows.len() && (#[trigger] rows[i]).delivery_id == (
                #[trigger] rows[j]).delivery_id ==> i == j
            &&& forall|i: int|
                0 <= i < rows.len() ==> {
                    &&& (#[trigger] rows[i]).status == DeliveryStatus::Pending
                    &&& rows[i].attempts == 0
                    &&& rows[i].lease_owner is None
                    &&& rows[i].lease_expires_at is None
                    &&& rows[i].provider_reference is None
                    &&& rows[i].failure_code is None
                    &&& rows[i].updated_at == now
                }
            &&& forall|i: int, j: int|
                0 <= i < j < rows.len() ==> !text_less(
                    (#[trigger] rows[j]).mapping_id,
                    (#[trigger] rows[i]).mapping_id,
                )
        }),
{
    let (u, view) = close_outcome(t, input, now)->Ok_0;
    let rows = u.periods[input.period_id@].lines;
    let handed = models(input.lines@);
    let sorted = in_order::<SnapshotLine>(handed);
    law_rows_are_put_in_order::<SnapshotLine>(handed);
    lemma_in_order_has_the_same(handed);
    assert(rows == fresh_lines(sorted, now));
    assert forall|i: int| 0 <= i < rows.len() implies keeps(#[trigger] rows[i], sorted[i]) && shows(
        view.lines[i],
        sorted[i],
    ) by {}
    assert forall|k: int| 0 <= k < handed.len() implies exists|i: int|
        0 <= i < rows.len() && keeps(#[trigger] rows[i], #[trigger] handed[k]) && shows(
            view.lines[i],
            handed[k],
        ) by {
        assert(sorted.contains(handed[k]));
        let i = choose|i: int| 0 <= i < sorted.len() && sorted[i] == handed[k];
        assert(keeps(rows[i], sorted[i]));
    }
    assert forall|i: int| 0 <= i < rows.len() implies exists|k: int|
        0 <= k < handed.len() && keeps(#[trigger] rows[i], #[trigger] handed[k]) && shows(
            view.lines[i],
            handed[k],
        ) by {
        assert(handed.contains(sorted[i]));
        let k = choose|k: int| 0 <= k < handed.len() && handed[k] == sorted[i];
        assert(keeps(rows[i], handed[k]));
    }
    assert forall|i: int, j: int|
        0 <= i < rows.len() && 0 <= j < rows.len() && (#[trigger] rows[i]).delivery_id == (
        #[trigger] rows[j]).delivery_id implies i == j by {
        assert(sorted[i].delivery_id == sorted[j].delivery_id);
    }
    assert forall|i: int, j: int| 0 <= i < j < rows.len() implies !text_less(
        (#[trigger] rows[j]).mapping_id,
        (#[trigger] rows[i]).mapping_id,
    ) by {
        assert(!text_less(sorted[j].mapping_id, sorted[i].mapping_id));
    }
}

/// The amounts of the lines that a close stores, and of those that it shows, add up to what those
/// that it was handed add up to; and the total is the one that it was handed. So they agree with
/// the total where those that it was handed did.
pub proof fn law_close_keeps_the_sum(t: Tables, input: ClosePeriod, now: i128)
    requires
        !t.commands.contains_key(close_key(input)),
        close_outcome(t, input, now) is Ok,
    ensures
        ({
            let (u, view) = close_outcome(t, input, now)->Ok_0;
            let row = u.periods[input.period_id@];
            let handed = sum_of(handed_amounts(models(input.lines@)));
            &&& sum_of(stored_amounts(row.lines)) == handed
            &&& sum_of(shown_amounts(view.lines)) == handed
            &&& row.total_amount_minor == input.total_amount_minor@
            &&& view.total_amount_minor == input.total_amount_minor@
            &&& integer_value(input.total_amount_minor@) == Some(handed) ==> {
                &&& integer_value(row.total_amount_minor) == Some(sum_of(stored_amounts(row.lines)))
                &&& integer_value(view.total_amount_minor) == Some(
                    sum_of(shown_amounts(view.lines)),
                )
            }
        }),
{
    let (u, view) = close_outcome(t, input, now)->Ok_0;
    let row = u.periods[input.period_id@];
    let handed = models(input.lines@);
    let sorted = in_order::<SnapshotLine>(handed);
    lemma_sum_in_order(handed);
    assert(row.lines == fresh_lines(sorted, now));
    assert(stored_amounts(row.lines) =~= handed_amounts(sorted));
    assert(shown_amounts(view.lines) =~= handed_amounts(sorted));
}

/// A close that writes stores, and answers, the period that was asked for: of this organization
/// and account, over this window in whole microseconds, at the expected revision, in the account's
/// currency and from this instant on; delivered already if there is nothing to deliver.
pub proof fn law_close_stores_what_was_asked(t: Tables, input: ClosePeriod, now: i128)
    requires
        !t.commands.contains_key(close_key(input)),
        close_outcome(t, input, now) is Ok,
    ensures
        ({
            let (u, view) = close_outcome(t, input, now)->Ok_0;
            let row = u.periods[input.period_id@];
            let account = t.accounts[input.account_id@];
            let status = if input.lines@.len() == 0 {
                PeriodStatus::Delivered
            } else {
                PeriodStatus::Pending
            };
            &&& row.organization_id == input.organization_id@
            &&& row.account_id == input.account_id@
            &&& row.period_id == input.period_id@
            &&& row.period_start == kept_instant(input.period_start as int)
            &&& row.period_end == kept_instant(input.period_end as int)
            &&& row.currency == account.currency
            &&& row.status == status
            &&& row.account_revision == input.expected_account_revision
            &&& row.created_at == now
            &&& view.organization_id == input.organization_id@
            &&& view.account_id == input.account_id@
            &&& view.period_id == input.period_id@
            &&& view.period_start == rfc3339_text(row.period_start)
            &&& view.period_end == rfc3339_text(row.period_end)
            &&& view.currency == account.currency
            &&& view.status == status
            &&& view.account_revision == integer_text(input.expected_account_revision as int)
            &&& view.created_at == rfc3339_text(now)
        }),
{
    let (u, view) = close_outcome(t, input, now)->Ok_0;
    law_rows_are_put_in_order::<SnapshotLine>(models(input.lines@));
    law_period_is_shown_as_stored(u, input.organization_id@, input.period_id@);
    law_kept_instant_is_the_microsecond(input.period_start as int);
    law_kept_instant_is_the_microsecond(input.period_end as int);
}

/// A close that writes adds its period and keeps its answer, and touches nothing else.
pub proof fn law_close_touches_its_period_only(t: Tables, input: ClosePeriod, now: i128)
    requires
        !t.commands.contains_key(close_key(input)),
        close_outcome(t, input, now) is Ok,
    ensures
        ({
            let (u, view) = close_outcome(t, input, now)->Ok_0;
            let key = CommandKeyOf {
                caller: input.caller@,
                actor: input.actor@,
                operation: Operation::ClosePeriod,
                idempotency_key: input.idempotency_key@,
            };
            &&& u.accounts == t.accounts
            &&& !t.periods.contains_key(input.period_id@)
            &&& forall|id: Text|
                id != input.period_id@ ==> (#[trigger] u.periods.contains_key(id)
                    <==> t.periods.contains_key(id))
            &&& forall|id: Text|
                id != input.period_id@ && #[trigger] t.periods.contains_key(id) ==> u.periods[id]
                    == t.periods[id]
            &&& u.commands.contains_key(key)
            &&& u.commands[key].key == key
            &&& u.commands[key].request_hash == input.request_hash@
            &&& u.commands[key].response == ResponseModel::Period(view)
            &&& forall|other: CommandKeyModel|
                other != key ==> (#[trigger] u.commands.contains_key(other)
                    <==> t.commands.contains_key(other))
            &&& forall|other: CommandKeyModel|
                other != key && #[trigger] t.commands.contains_key(other) ==> u.commands[other]
                    == t.commands[other]
        }),
{
}

/// A period of the account shares time with the window of the close, both cut to microseconds.
pub open spec fn meets_a_period(t: Tables, input: ClosePeriod) -> bool {
    exists|id: Text| #[trigger]
        t.periods.contains_key(id) && t.periods[id].account_id == input.account_id@
            && t.periods[id].period_start < kept_instant(input.period_end as int)
            && kept_instant(input.period_start as int) < t.periods[id].period_end
}

/// Why a close that is not finished yet is refused, the first reason that there is; and that it
/// goes through where there is none: the organization has the account, it is active and stands at
/// the expected revision, its periods leave the window free, the ids are free, and the instants
/// can be shown.
pub proof fn law_close_is_refused_for_a_reason(t: Tables, input: ClosePeriod, now: i128)
    requires
        !t.commands.contains_key(close_key(input)),
    ensures
        ({
            let account = t.accounts[input.account_id@];
            let own = t.accounts.contains_key(input.account_id@) && account.organization_id
                == input.organization_id@;
            let active = account.status == AccountStatus::Active;
            let current = account.revision == input.expected_account_revision;
            let free = !meets_a_period(t, input) && !t.periods.contains_key(input.period_id@);
            let handed = models(input.lines@);
            let new_ids = (forall|k: int, id: Text, i: int|
                0 <= k < handed.len() && #[trigger] line_at(t, id, i) ==> line(
                    t,
                    id,
                    i,
                ).delivery_id != (#[trigger] handed[k]).delivery_id) && forall|k: int, l: int|
                0 <= k < l < handed.len() ==> (#[trigger] handed[k]).delivery_id != (
                #[trigger] handed[l]).delivery_id;
            let sayable = can_be_said(kept_instant(input.period_start as int) as i128)
                && can_be_said(kept_instant(input.period_end as int) as i128) && can_be_said(now);
            let outcome = close_outcome(t, input, now);
            &&& !own ==> outcome is Err && outcome->Err_0 == StorageFailure::Domain(
                DomainFailure::NotFound,
            )
            &&& own && !active ==> outcome is Err && outcome->Err_0 == StorageFailure::Domain(
                DomainFailure::AccountDisabled,
            )
            &&& own && active && !current ==> outcome is Err && outcome->Err_0
                == StorageFailure::Domain(DomainFailure::RevisionConflict)
            &&& own && active && current && !free ==> outcome is Err && outcome->Err_0
                == StorageFailure::Domain(DomainFailure::PeriodConflict)
            &&& own && active && current && free && !new_ids ==> outcome is Err && outcome->Err_0
                is Database
            &&& own && active && current && free && new_ids && !sayable ==> outcome is Err
                && outcome->Err_0 is InvalidStored
            &&& own && active && current && free && new_ids && sayable ==> outcome is Ok
        }),
{
    let handed = models(input.lines@);
    let sorted = in_order::<SnapshotLine>(handed);
    let start = kept_instant(input.period_start as int) as i128;
    let end = kept_instant(input.period_end as int) as i128;
    law_kept_instant_is_the_microsecond(input.period_start as int);
    law_kept_instant_is_the_microsecond(input.period_end as int);
    assert(meets_a_period(t, input) <==> account_overlaps(t, input.account_id@, start, end)) by {
        if meets_a_period(t, input) {
            let id = choose|id: Text| #[trigger]
                t.periods.contains_key(id) && t.periods[id].account_id == input.account_id@
                    && t.periods[id].period_start < kept_instant(input.period_end as int)
                    && kept_instant(input.period_start as int) < t.periods[id].period_end;
            assert(t.periods.contains_key(id));
        }
        if account_overlaps(t, input.account_id@, start, end) {
            let id = choose|id: Text| #[trigger]
                t.periods.contains_key(id) && t.periods[id].account_id == input.account_id@
                    && windows_overlap(
                    t.periods[id].period_start,
                    t.periods[id].period_end,
                    start,
                    end,
                );
            assert(t.periods.contains_key(id));
        }
    }
    lemma_in_order_has_the_same(handed);
    lemma_taken_in_order(t, handed);
}

/// Whether delivery ids are taken does not depend on the order of the lines.
proof fn lemma_taken_in_order(t: Tables, handed: Seq<SnapshotLineModel>)
    ensures
        delivery_ids_taken(t, in_order::<SnapshotLine>(handed)) <==> !((forall|
            k: int,
            id: Text,
            i: int,
        |
            0 <= k < handed.len() && #[trigger] line_at(t, id, i) ==> line(t, id, i).delivery_id
                != (#[trigger] handed[k]).delivery_id) && forall|k: int, l: int|
            0 <= k < l < handed.len() ==> (#[trigger] handed[k]).delivery_id != (
            #[trigger] handed[l]).delivery_id),
{
    broadcast use vstd::seq_lib::group_to_multiset_ensures;

    let sorted = in_order::<SnapshotLine>(handed);
    law_rows_are_put_in_order::<SnapshotLine>(handed);
    lemma_in_order_has_the_same(handed);
    if exists|i: int|
        0 <= i < sorted.len() && delivery_stored(t, #[trigger] sorted[i].delivery_id) {
        let i = choose|i: int|
            0 <= i < sorted.len() && delivery_stored(t, #[trigger] sorted[i].delivery_id);
        assert(handed.contains(sorted[i]));
        let k = choose|k: int| 0 <= k < handed.len() && handed[k] == sorted[i];
        let (id, j) = delivery_place(t, sorted[i].delivery_id);
        assert(line_at(t, id, j) && line(t, id, j).delivery_id == handed[k].delivery_id);
    }
    if exists|k: int, id: Text, i: int|
        0 <= k < handed.len() && #[trigger] line_at(t, id, i) && line(t, id, i).delivery_id == (
        #[trigger] handed[k]).delivery_id {
        let (k, id, i) = choose|k: int, id: Text, i: int|
            0 <= k < handed.len() && #[trigger] line_at(t, id, i) && line(t, id, i).delivery_id == (
            #[trigger] handed[k]).delivery_id;
        assert(sorted.contains(handed[k]));
        let j = choose|j: int| 0 <= j < sorted.len() && sorted[j] == handed[k];
        assert(delivery_stored(t, sorted[j].delivery_id));
    }
    lemma_distinct_in_order(handed, sorted);
}

/// Two orders of the same lines repeat a delivery id alike.
proof fn lemma_distinct_in_order(a: Seq<SnapshotLineModel>, b: Seq<SnapshotLineModel>)
    requires
        a.to_multiset() == b.to_multiset(),
        a.len() == b.len(),
    ensures
        (forall|k: int, l: int|
            0 <= k < l < a.len() ==> (#[trigger] a[k]).delivery_id != (#[trigger] a[l]).delivery_id)
            <==> forall|k: int, l: int|
            0 <= k < l < b.len() ==> (#[trigger] b[k]).delivery_id != (#[trigger] b[l]).delivery_id,
{
    lemma_distinct_carries(a, b);
    lemma_distinct_carries(b, a);
}

proof fn lemma_distinct_carries(a: Seq<SnapshotLineModel>, b: Seq<SnapshotLineModel>)
    requires
        a.to_multiset() == b.to_multiset(),
        a.len() == b.len(),
    ensures
        (forall|k: int, l: int|
            0 <= k < l < a.len() ==> (#[trigger] a[k]).delivery_id != (#[trigger] a[l]).delivery_id)
            ==> forall|k: int, l: int|
            0 <= k < l < b.len() ==> (#[trigger] b[k]).delivery_id != (#[trigger] b[l]).delivery_id,
{
    broadcast use vstd::seq_lib::group_to_multiset_ensures;

    if forall|k: int, l: int|
        0 <= k < l < a.len() ==> (#[trigger] a[k]).delivery_id != (#[trigger] a[l]).delivery_id {
        assert(a.no_duplicates());
        a.lemma_multiset_has_no_duplicates();
        b.lemma_multiset_has_no_duplicates_conv();
        assert forall|k: int, l: int| 0 <= k < l < b.len() implies (#[trigger] b[k]).delivery_id
            != (#[trigger] b[l]).delivery_id by {
            assert(b.to_multiset().count(b[k]) > 0 && b.to_multiset().count(b[l]) > 0);
            assert(a.contains(b[k]) && a.contains(b[l]));
            let x = choose|x: int| 0 <= x < a.len() && a[x] == b[k];
            let y = choose|y: int| 0 <= y < a.len() && a[y] == b[l];
            assert(b[k] != b[l]);
            assert(x != y);
            if x < y {
                assert(a[x].delivery_id != a[y].delivery_id);
            } else {
                assert(a[y].delivery_id != a[x].delivery_id);
            }
        }
    }
}

proof fn lemma_total_is_the_sum(lines: Seq<SnapshotLineModel>)
    ensures
        total_of(lines) == sum_of(handed_amounts(lines)),
    decreases lines.len(),
{
    if lines.len() > 0 {
        lemma_total_is_the_sum(lines.drop_last());
        lemma_sum_with_one_more(lines.drop_last(), lines.last());
        assert(lines.drop_last().push(lines.last()) =~= lines);
    }
}

/// What the closing of a period is for: the stored period has a line for every meter of the
/// account, with the usage that was read for it and with quantity times price as its amount, and
/// no other line; and its total is the sum of quantity times price over all meters. The answer
/// shows the same.
pub proof fn law_closed_period_bills_every_meter(
    t: Tables,
    input: ClosePeriod,
    now: i128,
    snapshot: SnapshotModel,
    caller: Text,
    actor: Text,
    wire: Seq<u8>,
    usages: Seq<UsageModel>,
)
    requires
        !t.commands.contains_key(close_key(input)),
        close_outcome(t, input, now) is Ok,
        close_input(input, snapshot, caller, actor, wire),
        usages.len() == snapshot.meters.len(),
        snapshot.lines == snapshot_lines(snapshot.period_id, snapshot.meters, usages),
        forall|k: int|
            0 <= k < usages.len() ==> integer_value((#[trigger] usages[k]).quantity) is Some,
        forall|k: int|
            0 <= k < usages.len() ==> integer_value(
                (#[trigger] snapshot.meters[k]).unit_price_minor,
            ) is Some,
    ensures
        ({
            let (u, view) = close_outcome(t, input, now)->Ok_0;
            let row = u.periods[snapshot.period_id];
            &&& row.lines.len() == snapshot.meters.len()
            &&& view.lines.len() == snapshot.meters.len()
            &&& forall|k: int|
                0 <= k < usages.len() ==> exists|i: int|
                    {
                        let meter = #[trigger] snapshot.meters[k];
                        let bill = integer_value(usages[k].quantity)->0 * integer_value(
                            meter.unit_price_minor,
                        )->0;
                        &&& 0 <= i < row.lines.len()
                        &&& (#[trigger] row.lines[i]).mapping_id == meter.mapping_id
                        &&& row.lines[i].source_meter == meter.source_meter
                        &&& row.lines[i].sink_meter == meter.sink_meter
                        &&& row.lines[i].quantity == usages[k].quantity
                        &&& row.lines[i].usage_revision == usages[k].aggregate_revision
                        &&& row.lines[i].unit_price_minor == meter.unit_price_minor
                        &&& integer_value(row.lines[i].amount_minor) == Some(bill)
                        &&& view.lines[i].mapping_id == meter.mapping_id
                        &&& view.lines[i].quantity == usages[k].quantity
                        &&& view.lines[i].unit_price_minor == meter.unit_price_minor
                        &&& integer_value(view.lines[i].amount_minor) == Some(bill)
                    }
            &&& integer_value(row.total_amount_minor) == Some(priced_usage(snapshot.meters, usages))
            &&& integer_value(view.total_amount_minor) == Some(
                priced_usage(snapshot.meters, usages),
            )
            &&& sum_of(stored_amounts(row.lines)) == priced_usage(snapshot.meters, usages)
            &&& sum_of(shown_amounts(view.lines)) == priced_usage(snapshot.meters, usages)
        }),
{
    let (u, view) = close_outcome(t, input, now)->Ok_0;
    let row = u.periods[snapshot.period_id];
    let handed = models(input.lines@);
    law_close_keeps_every_line(t, input, now);
    law_close_keeps_the_sum(t, input, now);
    law_closed_snapshot_is_handed_over(input, snapshot, caller, actor, wire);
    law_total_is_exact(snapshot.period_id, snapshot.meters, usages);
    lemma_total_is_the_sum(handed);
    assert forall|k: int| 0 <= k < usages.len() implies exists|i: int|
        {
            let meter = #[trigger] snapshot.meters[k];
            let bill = integer_value(usages[k].quantity)->0 * integer_value(
                meter.unit_price_minor,
            )->0;
            &&& 0 <= i < row.lines.len()
            &&& (#[trigger] row.lines[i]).mapping_id == meter.mapping_id
            &&& row.lines[i].source_meter == meter.source_meter
            &&& row.lines[i].sink_meter == meter.sink_meter
            &&& row.lines[i].quantity == usages[k].quantity
            &&& row.lines[i].usage_revision == usages[k].aggregate_revision
            &&& row.lines[i].unit_price_minor == meter.unit_price_minor
            &&& integer_value(row.lines[i].amount_minor) == Some(bill)
            &&& view.lines[i].mapping_id == meter.mapping_id
            &&& view.lines[i].quantity == usages[k].quantity
            &&& view.lines[i].unit_price_minor == meter.unit_price_minor
            &&& integer_value(view.lines[i].amount_minor) == Some(bill)
        } by {
        assert(integer_value(usages[k].quantity) is Some);
        assert(integer_value(snapshot.meters[k].unit_price_minor) is Some);
        law_line_is_usage_times_price(snapshot.period_id, snapshot.meters[k], usages[k]);
        assert(handed[k] == snapshot_line(snapshot.period_id, snapshot.meters[k], usages[k]));
        let i = choose|i: int|
            0 <= i < row.lines.len() && keeps(#[trigger] row.lines[i], #[trigger] handed[k])
                && shows(view.lines[i], handed[k]);
        assert(row.lines[i].mapping_id == snapshot.meters[k].mapping_id);
    }
}

} // verus!
