//! Periods: closing a window into an immutable snapshot, and reading.

use vstd::prelude::*;

use crate::error::{database, DomainFailure, StorageError, StorageErrorOf};
use crate::input::ClosePeriod;
use crate::instant::stored_instant;
use crate::model::{
    models, AccountStatus, CommandKey, CommandKeyOf, DeliveryStatus, LineRow, LineRowOf, Operation,
    PeriodRow, PeriodRowOf, PeriodStatus, PeriodView, Response, SnapshotLine, SnapshotLineOf,
};
use crate::order::{in_order, sort_rows};
use crate::rows::{has_key, lemma_table_push};
use crate::store::show::show_period;
use crate::store::{answers, settles, BillingStore};
use crate::tables::{
    account_overlaps, close_key, close_outcome, close_row, delivery_ids_taken, delivery_stored,
    fresh_line, fresh_lines, lemma_new_period, lemma_same_periods, line, period_outcome,
    windows_overlap, Tables,
};
use crate::text::{same_text, Text};

verus! {

fn command_key(input: &ClosePeriod) -> (r: CommandKey)
    ensures
        r@ == close_key(*input),
{
    CommandKeyOf {
        caller: input.caller.clone(),
        actor: input.actor.clone(),
        operation: Operation::ClosePeriod,
        idempotency_key: input.idempotency_key.clone(),
    }
}

fn first_line(line: &SnapshotLine, now: i128) -> (r: LineRow)
    ensures
        r@ == fresh_line(line@, now),
{
    LineRowOf {
        delivery_id: line.delivery_id.clone(),
        mapping_id: line.mapping_id.clone(),
        source_meter: line.source_meter.clone(),
        sink_meter: line.sink_meter.clone(),
        quantity: line.quantity.clone(),
        usage_revision: line.usage_revision,
        unit_price_minor: line.unit_price_minor.clone(),
        amount_minor: line.amount_minor.clone(),
        status: DeliveryStatus::Pending,
        attempts: 0,
        lease_owner: None,
        lease_expires_at: None,
        provider_reference: None,
        failure_code: None,
        updated_at: now,
    }
}

fn first_lines(lines: &Vec<SnapshotLine>, now: i128) -> (r: Vec<LineRow>)
    ensures
        models(r@) == fresh_lines(models(lines@), now),
{
    let mut out: Vec<LineRow> = Vec::new();
    let mut i: usize = 0;
    while i < lines.len()
        invariant
            i <= lines.len(),
            out.len() == i,
            forall|j: int| 0 <= j < i ==> (#[trigger] out@[j])@ == fresh_line(lines@[j]@, now),
        decreases lines.len() - i,
    {
        out.push(first_line(&lines[i], now));
        i = i + 1;
    }
    assert(models(out@) =~= fresh_lines(models(lines@), now));
    out
}

fn copy_snapshot(lines: &Vec<SnapshotLine>) -> (r: Vec<SnapshotLine>)
    ensures
        models(r@) == models(lines@),
{
    let mut out: Vec<SnapshotLine> = Vec::new();
    let mut i: usize = 0;
    while i < lines.len()
        invariant
            i <= lines.len(),
            out.len() == i,
            forall|j: int| 0 <= j < i ==> (#[trigger] out@[j])@ == lines@[j]@,
        decreases lines.len() - i,
    {
        let line = &lines[i];
        out.push(
            SnapshotLineOf {
                delivery_id: line.delivery_id.clone(),
                mapping_id: line.mapping_id.clone(),
                source_meter: line.source_meter.clone(),
                sink_meter: line.sink_meter.clone(),
                quantity: line.quantity.clone(),
                usage_revision: line.usage_revision,
                unit_price_minor: line.unit_price_minor.clone(),
                amount_minor: line.amount_minor.clone(),
            },
        );
        i = i + 1;
    }
    assert(models(out@) =~= models(lines@));
    out
}

impl BillingStore {
    fn overlaps(&self, account_id: &str, period_start: i128, period_end: i128) -> (r: bool)
        requires
            self.wf(),
        ensures
            r == account_overlaps(self@, account_id@, period_start, period_end),
    {
        let mut i: usize = 0;
        while i < self.periods.len()
            invariant
                i <= self.periods.len(),
                self.wf(),
                forall|j: int|
                    0 <= j < i ==> !((#[trigger] self.periods@[j]).account_id@ == account_id@
                        && windows_overlap(
                        self.periods@[j].period_start,
                        self.periods@[j].period_end,
                        period_start,
                        period_end,
                    )),
            decreases self.periods.len() - i,
        {
            let period = &self.periods[i];
            if period.period_start < period_end && period.period_end > period_start && same_text(
                period.account_id.as_str(),
                account_id,
            ) {
                proof {
                    self.lemma_period_row(i as int);
                    assert(self@.periods.contains_key(period.period_id@));
                }
                return true;
            }
            i = i + 1;
        }
        proof {
            if account_overlaps(self@, account_id@, period_start, period_end) {
                let id = choose|id: Text| #[trigger]
                    self@.periods.contains_key(id) && self@.periods[id].account_id == account_id@
                        && windows_overlap(
                        self@.periods[id].period_start,
                        self@.periods[id].period_end,
                        period_start,
                        period_end,
                    );
                let j = self.lemma_period_place(id);
                assert(self.periods@[j].account_id@ == account_id@);
            }
        }
        false
    }

    fn ids_taken(&self, lines: &Vec<SnapshotLine>) -> (r: bool)
        requires
            self.wf(),
        ensures
            r == delivery_ids_taken(self@, models(lines@)),
    {
        let ghost rows = models(lines@);
        let mut i: usize = 0;
        while i < lines.len()
            invariant
                i <= lines.len(),
                self.wf(),
                rows == models(lines@),
                forall|k: int|
                    0 <= k < i ==> !delivery_stored(self@, (#[trigger] rows[k]).delivery_id),
                forall|k: int, m: int|
                    0 <= k < m < i ==> (#[trigger] rows[k]).delivery_id != (
                    #[trigger] rows[m]).delivery_id,
            decreases lines.len() - i,
        {
            if self.find_delivery(lines[i].delivery_id.as_str()).is_some() {
                assert(delivery_stored(self@, rows[i as int].delivery_id));
                return true;
            }
            let mut k: usize = 0;
            while k < i
                invariant
                    k <= i < lines.len(),
                    rows == models(lines@),
                    forall|m: int|
                        0 <= m < k ==> (#[trigger] rows[m]).delivery_id
                            != rows[i as int].delivery_id,
                decreases i - k,
            {
                if lines[k].delivery_id == lines[i].delivery_id {
                    assert(rows[k as int].delivery_id == rows[i as int].delivery_id);
                    return true;
                }
                k = k + 1;
            }
            i = i + 1;
        }
        false
    }

    /// The row that the close writes.
    fn prepare_period(&self, input: &ClosePeriod, now: i128) -> (r: Result<PeriodRow, StorageError>)
        requires
            self.wf(),
        ensures
            answers(r, close_row(self@, *input, now)),
    {
        let account = match self.find_account(input.account_id.as_str()) {
            Some(i) => &self.accounts[i],
            None => {
                return Err(StorageErrorOf::Domain(DomainFailure::NotFound));
            },
        };
        if account.organization_id != input.organization_id {
            return Err(StorageErrorOf::Domain(DomainFailure::NotFound));
        }
        if account.status != AccountStatus::Active {
            return Err(StorageErrorOf::Domain(DomainFailure::AccountDisabled));
        }
        if account.revision != input.expected_account_revision {
            return Err(StorageErrorOf::Domain(DomainFailure::RevisionConflict));
        }
        let period_start = stored_instant(input.period_start);
        let period_end = stored_instant(input.period_end);
        if self.overlaps(input.account_id.as_str(), period_start, period_end) {
            return Err(StorageErrorOf::Domain(DomainFailure::PeriodConflict));
        }
        if self.find_period(input.period_id.as_str()).is_some() {
            return Err(StorageErrorOf::Domain(DomainFailure::PeriodConflict));
        }
        let lines = sort_rows(copy_snapshot(&input.lines));
        if self.ids_taken(&lines) {
            return Err(database("insert billing period line"));
        }
        Ok(
            PeriodRowOf {
                organization_id: input.organization_id.clone(),
                account_id: input.account_id.clone(),
                period_id: input.period_id.clone(),
                period_start,
                period_end,
                currency: account.currency.clone(),
                status: if lines.len() == 0 {
                    PeriodStatus::Delivered
                } else {
                    PeriodStatus::Pending
                },
                account_revision: account.revision,
                total_amount_minor: input.total_amount_minor.clone(),
                created_at: now,
                lines: first_lines(&lines, now),
            },
        )
    }

    /// Closes a window of an active account at its expected revision into a period, unless the
    /// window shares time with a period of the account. The same request again gives the same
    /// answer and changes nothing.
    pub fn close_period(&mut self, input: &ClosePeriod, now: i128) -> (r: Result<
        PeriodView,
        StorageError,
    >)
        requires
            old(self).wf(),
        ensures
            final(self).wf(),
            settles(r, old(self)@, final(self)@, close_outcome(old(self)@, *input, now)),
    {
        let key = command_key(input);
        match self.replay(&key, &input.request_hash) {
            Err(error) => {
                return Err(error);
            },
            Ok(Some(Response::Period(view))) => {
                return Ok(view);
            },
            Ok(Some(_)) => {
                return Err(StorageErrorOf::Serialization);
            },
            Ok(None) => {},
        }
        let row = match self.prepare_period(input, now) {
            Ok(row) => row,
            Err(error) => {
                return Err(error);
            },
        };
        let view = match show_period(&row) {
            Ok(view) => view,
            Err(error) => {
                return Err(error);
            },
        };
        let ghost before = models(self.periods@);
        let ghost written = row@;
        proof {
            let snapshot = in_order::<SnapshotLine>(models(input.lines@));
            assert(!has_key(before, written.period_id)) by {
                assert(!self@.periods.contains_key(written.period_id));
            }
            lemma_table_push(before, written);
            assert forall|i: int| 0 <= i < written.lines.len() implies !delivery_stored(
                self@,
                (#[trigger] written.lines[i]).delivery_id,
            ) by {
                assert(written.lines[i].delivery_id == snapshot[i].delivery_id);
            }
            assert forall|i: int, j: int|
                0 <= i < written.lines.len() && 0 <= j < written.lines.len() && (
                #[trigger] written.lines[i]).delivery_id == (
                #[trigger] written.lines[j]).delivery_id implies i == j by {
                assert(written.lines[i].delivery_id == snapshot[i].delivery_id);
                assert(written.lines[j].delivery_id == snapshot[j].delivery_id);
            }
            lemma_new_period(self@, written);
        }
        self.periods.push(row);
        proof {
            assert(models(self.periods@) =~= before.push(written));
            lemma_same_periods(
                Tables {
                    periods: old(self)@.periods.insert(written.period_id, written),
                    ..old(self)@
                },
                self@,
            );
        }
        let kept = Response::Period(view.copy());
        self.store_command(key, &input.request_hash, kept);
        Ok(view)
    }

    /// The organization's period.
    pub fn get_period(&self, organization_id: &str, period_id: &str) -> (r: Result<
        PeriodView,
        StorageError,
    >)
        requires
            self.wf(),
        ensures
            answers(r, period_outcome(self@, organization_id@, period_id@)),
    {
        match self.find_period(period_id) {
            Some(i) => if same_text(self.periods[i].organization_id.as_str(), organization_id) {
                show_period(&self.periods[i])
            } else {
                Err(StorageErrorOf::Domain(DomainFailure::NotFound))
            },
            None => Err(StorageErrorOf::Domain(DomainFailure::NotFound)),
        }
    }
}

} // verus!
