//! Deliveries: taking them on under a lease, completing an attempt, resolving and reading.

use vstd::prelude::*;

use crate::error::{database, DomainFailure, StorageError, StorageErrorOf};
use crate::input::{Completion, ResolveDelivery};
use crate::instant::format_rfc3339;
use crate::model::{
    copy_optional, models, optional_text, CommandKey, CommandKeyOf, DeliveryClaim, DeliveryClaimOf,
    DeliveryStatus, DeliveryView, LineRow, LineRowOf, Operation, PeriodRow, PeriodRowOf,
    PeriodStatus, Resolution, Response,
};
use crate::order::{law_text_order_is_total, text_before};
use crate::rows::{has_key, lemma_table_get, lemma_table_replace, lemma_table_update, table};
use crate::store::show::show_delivery;
use crate::store::{answers, settles, BillingStore};
use crate::tables::{
    anything_to_claim, claim_of, claim_outcome, claimable, claimed, complete_outcome,
    delivery_outcome, earlier, given_up, lemma_earlier_is_transitive, lemma_next_is_unique,
    lemma_same_delivery_ids, line, line_at, next_to_claim, open_to_claim, period_given_up, released,
    resolve_key, resolve_outcome, resolved, spent, status_of, tables_given_up, with_settled_line,
    Tables,
};
use crate::text::{same_text, Text};

verus! {

fn copy_line(row: &LineRow) -> (r: LineRow)
    ensures
        r@ == row@,
{
    LineRowOf {
        delivery_id: row.delivery_id.clone(),
        mapping_id: row.mapping_id.clone(),
        source_meter: row.source_meter.clone(),
        sink_meter: row.sink_meter.clone(),
        quantity: row.quantity.clone(),
        usage_revision: row.usage_revision,
        unit_price_minor: row.unit_price_minor.clone(),
        amount_minor: row.amount_minor.clone(),
        status: row.status,
        attempts: row.attempts,
        lease_owner: copy_optional(&row.lease_owner),
        lease_expires_at: row.lease_expires_at,
        provider_reference: copy_optional(&row.provider_reference),
        failure_code: copy_optional(&row.failure_code),
        updated_at: row.updated_at,
    }
}

fn copy_lines(rows: &Vec<LineRow>) -> (r: Vec<LineRow>)
    ensures
        models(r@) == models(rows@),
{
    let mut out: Vec<LineRow> = Vec::new();
    let mut i: usize = 0;
    while i < rows.len()
        invariant
            i <= rows.len(),
            out.len() == i,
            forall|j: int| 0 <= j < i ==> (#[trigger] out@[j])@ == rows@[j]@,
        decreases rows.len() - i,
    {
        out.push(copy_line(&rows[i]));
        i = i + 1;
    }
    assert(models(out@) =~= models(rows@));
    out
}

/// The period with other lines and another status.
fn replace_lines(period: &PeriodRow, lines: Vec<LineRow>, status: PeriodStatus) -> (r: PeriodRow)
    ensures
        r@ == (PeriodRowOf { lines: models(lines@), status, ..period@ }),
{
    PeriodRowOf {
        organization_id: period.organization_id.clone(),
        account_id: period.account_id.clone(),
        period_id: period.period_id.clone(),
        period_start: period.period_start,
        period_end: period.period_end,
        currency: period.currency.clone(),
        status,
        account_revision: period.account_revision,
        total_amount_minor: period.total_amount_minor.clone(),
        created_at: period.created_at,
        lines,
    }
}

/// The status of a period with these lines.
pub fn refresh_period_status(lines: &Vec<LineRow>) -> (r: PeriodStatus)
    ensures
        r == status_of(models(lines@)),
{
    let ghost rows = models(lines@);
    let mut unknown = false;
    let mut failed = false;
    let mut open = false;
    let mut i: usize = 0;
    while i < lines.len()
        invariant
            i <= lines.len(),
            rows == models(lines@),
            unknown == exists|j: int|
                0 <= j < i && (#[trigger] rows[j]).status == DeliveryStatus::Unknown,
            failed == exists|j: int|
                0 <= j < i && (#[trigger] rows[j]).status == DeliveryStatus::Failed,
            open == exists|j: int|
                0 <= j < i && (#[trigger] rows[j]).status != DeliveryStatus::Delivered,
        decreases lines.len() - i,
    {
        let status = lines[i].status;
        assert(rows[i as int].status == status);
        if status == DeliveryStatus::Unknown {
            unknown = true;
        }
        if status == DeliveryStatus::Failed {
            failed = true;
        }
        if status != DeliveryStatus::Delivered {
            open = true;
        }
        i = i + 1;
    }
    if unknown {
        PeriodStatus::Unknown
    } else if failed {
        PeriodStatus::Failed
    } else if open {
        PeriodStatus::Pending
    } else {
        PeriodStatus::Delivered
    }
}

fn is_earlier(left: &LineRow, right: &LineRow) -> (r: bool)
    ensures
        r == earlier(left@, right@),
{
    left.updated_at < right.updated_at || (left.updated_at == right.updated_at && text_before(
        left.delivery_id.as_str(),
        right.delivery_id.as_str(),
    ))
}

fn is_claimable(row: &LineRow, max_attempts: i32, now: i128) -> (r: bool)
    ensures
        r == claimable(row@, max_attempts, now),
{
    if row.attempts >= max_attempts {
        return false;
    }
    if row.status == DeliveryStatus::Pending {
        return true;
    }
    if row.status != DeliveryStatus::InFlight {
        return false;
    }
    match row.lease_expires_at {
        Some(expiry) => expiry <= now,
        None => false,
    }
}

/// The texts of a list, as a set.
pub open spec fn text_set(list: Seq<String>) -> Set<Text> {
    models(list).to_set()
}

/// The deliveries that are held are those that are named, and no others.
pub proof fn law_held_deliveries_are_named(list: Seq<String>, delivery_id: Text)
    ensures
        text_set(list).contains(delivery_id) <==> exists|i: int|
            0 <= i < list.len() && (#[trigger] list[i])@ == delivery_id,
{
    let texts = models(list);
    if texts.contains(delivery_id) {
        let i = choose|i: int| 0 <= i < texts.len() && texts[i] == delivery_id;
        assert(list[i]@ == delivery_id);
    }
    assert forall|i: int| 0 <= i < list.len() && (#[trigger] list[i])@
        == delivery_id implies texts.contains(delivery_id) by {
        assert(texts[i] == delivery_id);
    }
}

fn contains(list: &Vec<String>, text: &str) -> (r: bool)
    ensures
        r == text_set(list@).contains(text@),
{
    let ghost texts = models(list@);
    let mut i: usize = 0;
    while i < list.len()
        invariant
            i <= list.len(),
            texts == models(list@),
            forall|j: int| 0 <= j < i ==> #[trigger] texts[j] != text@,
        decreases list.len() - i,
    {
        if same_text(list[i].as_str(), text) {
            assert(texts[i as int] == text@);
            assert(texts.contains(text@));
            return true;
        }
        i = i + 1;
    }
    assert(!texts.contains(text@));
    false
}

/// The period with its spent lines given up.
fn give_up(period: &PeriodRow, max_attempts: i32, now: i128) -> (r: PeriodRow)
    ensures
        r@ == period_given_up(period@, max_attempts, now),
{
    let ghost rows = models(period.lines@);
    let mut any = false;
    let mut lines: Vec<LineRow> = Vec::new();
    let mut i: usize = 0;
    while i < period.lines.len()
        invariant
            i <= period.lines.len(),
            rows == models(period.lines@),
            lines.len() == i,
            any == exists|j: int| 0 <= j < i && spent(#[trigger] rows[j], max_attempts),
            forall|j: int|
                0 <= j < i ==> (#[trigger] lines@[j])@ == given_up(rows[j], max_attempts, now),
        decreases period.lines.len() - i,
    {
        let mut row = copy_line(&period.lines[i]);
        assert(row@ == rows[i as int]);
        if row.status == DeliveryStatus::Pending && row.attempts >= max_attempts {
            assert(spent(rows[i as int], max_attempts));
            any = true;
            row.status = DeliveryStatus::Failed;
            row.failure_code = Some("attempts_exhausted".to_owned());
            row.lease_owner = None;
            row.lease_expires_at = None;
            row.updated_at = now;
        }
        lines.push(row);
        i = i + 1;
    }
    let ghost after = Seq::new(rows.len(), |i: int| given_up(rows[i], max_attempts, now));
    assert(models(lines@) =~= after);
    if any {
        let status = refresh_period_status(&lines);
        replace_lines(period, lines, status)
    } else {
        assert(models(lines@) =~= rows);
        replace_lines(period, lines, period.status)
    }
}

fn release(
    row: &LineRow,
    status: DeliveryStatus,
    provider_reference: Option<String>,
    failure_code: Option<String>,
    now: i128,
) -> (r: LineRow)
    ensures
        r@ == released(
            row@,
            status,
            optional_text(provider_reference),
            optional_text(failure_code),
            now,
        ),
{
    let mut released = copy_line(row);
    released.status = status;
    released.lease_owner = None;
    released.lease_expires_at = None;
    released.provider_reference = provider_reference;
    released.failure_code = failure_code;
    released.updated_at = now;
    released
}

fn resolve(row: &LineRow, input: &ResolveDelivery, now: i128) -> (r: Option<LineRow>)
    ensures
        match resolved(row@, *input, now) {
            Some(settled) => r is Some && r->0@ == settled,
            None => r is None,
        },
{
    if row.status != DeliveryStatus::Failed && row.status != DeliveryStatus::Unknown {
        return None;
    }
    match input.resolution {
        Resolution::Retry => Some(release(row, DeliveryStatus::Pending, None, None, now)),
        Resolution::Delivered => if input.provider_reference.is_some() {
            Some(
                release(
                    row,
                    DeliveryStatus::Delivered,
                    copy_optional(&input.provider_reference),
                    None,
                    now,
                ),
            )
        } else {
            None
        },
        Resolution::Failed => Some(
            release(
                row,
                DeliveryStatus::Failed,
                copy_optional(&input.provider_reference),
                Some(input.reason.clone()),
                now,
            ),
        ),
    }
}

fn command_key(input: &ResolveDelivery) -> (r: CommandKey)
    ensures
        r@ == resolve_key(*input),
{
    CommandKeyOf {
        caller: input.caller.clone(),
        actor: input.actor.clone(),
        operation: Operation::ResolveDelivery,
        idempotency_key: input.idempotency_key.clone(),
    }
}

/// The two rows are of the same delivery.
spec fn same_delivery(a: LineRow, b: LineRow) -> bool {
    a.delivery_id@ == b.delivery_id@
}

impl BillingStore {
    /// Writes the period's row with other lines that keep their delivery ids.
    fn write_lines(&mut self, p: usize, lines: Vec<LineRow>, status: PeriodStatus)
        requires
            old(self).wf(),
            p < old(self).periods@.len(),
            lines@.len() == old(self).periods@[p as int].lines@.len(),
            forall|i: int|
                0 <= i < lines@.len() ==> same_delivery(
                    #[trigger] lines@[i],
                    old(self).periods@[p as int].lines@[i],
                ),
        ensures
            final(self).wf(),
            final(self)@ == (Tables {
                periods: old(self)@.periods.insert(
                    old(self).periods@[p as int].period_id@,
                    PeriodRowOf {
                        lines: models(lines@),
                        status,
                        ..old(self).periods@[p as int]@
                    },
                ),
                ..old(self)@
            }),
    {
        let ghost before = models(self.periods@);
        let ghost id = self.periods@[p as int].period_id@;
        let row = replace_lines(&self.periods[p], lines, status);
        let ghost written = row@;
        proof {
            self.lemma_period_row(p as int);
            lemma_table_update(before, p as int, written);
        }
        self.periods.set(p, row);
        proof {
            assert(models(self.periods@) =~= before.update(p as int, written));
            let t = old(self)@;
            let u = self@;
            assert(u.periods == t.periods.insert(id, written));
            assert forall|a: Text, i: int| #[trigger] line_at(u, a, i) implies line(
                u,
                a,
                i,
            ).delivery_id == line(t, a, i).delivery_id by {
                if a == id {
                    assert(lines@[i].delivery_id@ == t.periods[id].lines[i].delivery_id);
                }
            }
            lemma_same_delivery_ids(t, u);
        }
    }

    /// Writes one line, and the period's status with it.
    fn settle_line(&mut self, p: usize, l: usize, row: LineRow)
        requires
            old(self).wf(),
            p < old(self).periods@.len(),
            l < old(self).periods@[p as int].lines@.len(),
            row.delivery_id@ == old(self).periods@[p as int].lines@[l as int].delivery_id@,
        ensures
            final(self).wf(),
            final(self)@ == with_settled_line(
                old(self)@,
                old(self).periods@[p as int].period_id@,
                l as int,
                row@,
            ),
    {
        let ghost rows = models(self.periods@[p as int].lines@);
        let ghost settled = row@;
        let mut lines = copy_lines(&self.periods[p].lines);
        assert(lines@.len() == models(lines@).len());
        lines.set(l, row);
        assert(models(lines@) =~= rows.update(l as int, settled));
        let status = refresh_period_status(&lines);
        proof {
            self.lemma_period_row(p as int);
            assert forall|i: int| 0 <= i < lines@.len() implies (
            #[trigger] lines@[i]).delivery_id@
                == self.periods@[p as int].lines@[i].delivery_id@ by {
                assert(models(lines@)[i].delivery_id == lines@[i].delivery_id@);
                assert(rows[i].delivery_id == self.periods@[p as int].lines@[i].delivery_id@);
            }
        }
        self.write_lines(p, lines, status);
    }

    /// Ends an attempt at a delivery, if the worker still holds it in that very attempt.
    pub fn complete_delivery(&mut self, input: &Completion, now: i128) -> (r: Result<
        (),
        StorageError,
    >)
        requires
            old(self).wf(),
        ensures
            final(self).wf(),
            match complete_outcome(old(self)@, *input, now) {
                Ok(state) => r is Ok && final(self)@ == state,
                Err(failure) => r is Err && r->Err_0@ == failure && final(self)@ == old(self)@,
            },
    {
        let (p, l) = match self.find_delivery(input.delivery_id.as_str()) {
            Some(place) => place,
            None => {
                return Err(StorageErrorOf::Domain(DomainFailure::DeliveryNotFound));
            },
        };
        let row = &self.periods[p].lines[l];
        let held = match &row.lease_owner {
            Some(owner) => row.status == DeliveryStatus::InFlight && *owner == input.worker_id
                && row.attempts == input.attempt,
            None => false,
        };
        if !held {
            return Err(StorageErrorOf::Domain(DomainFailure::DeliveryNotFound));
        }
        let settled = release(
            row,
            input.status,
            copy_optional(&input.provider_reference),
            copy_optional(&input.failure_code),
            now,
        );
        self.settle_line(p, l, settled);
        Ok(())
    }

    /// The organization's delivery.
    pub fn inspect_delivery(&self, organization_id: &str, delivery_id: &str) -> (r: Result<
        DeliveryView,
        StorageError,
    >)
        requires
            self.wf(),
        ensures
            answers(r, delivery_outcome(self@, organization_id@, delivery_id@)),
    {
        let (p, l) = match self.find_delivery(delivery_id) {
            Some(place) => place,
            None => {
                return Err(StorageErrorOf::Domain(DomainFailure::DeliveryNotFound));
            },
        };
        if same_text(self.periods[p].organization_id.as_str(), organization_id) {
            show_delivery(&self.periods[p], &self.periods[p].lines[l])
        } else {
            Err(StorageErrorOf::Domain(DomainFailure::DeliveryNotFound))
        }
    }

    /// Resolves a delivery that failed or whose effect is unknown. The same request again gives the
    /// same answer and changes nothing.
    pub fn resolve_delivery(&mut self, input: &ResolveDelivery, now: i128) -> (r: Result<
        DeliveryView,
        StorageError,
    >)
        requires
            old(self).wf(),
        ensures
            final(self).wf(),
            settles(r, old(self)@, final(self)@, resolve_outcome(old(self)@, *input, now)),
    {
        let key = command_key(input);
        match self.replay(&key, &input.request_hash) {
            Err(error) => {
                return Err(error);
            },
            Ok(Some(Response::Delivery(view))) => {
                return Ok(view);
            },
            Ok(Some(_)) => {
                return Err(StorageErrorOf::Serialization);
            },
            Ok(None) => {},
        }
        let (p, l) = match self.find_delivery(input.delivery_id.as_str()) {
            Some(place) => place,
            None => {
                return Err(StorageErrorOf::Domain(DomainFailure::DeliveryNotFound));
            },
        };
        if self.periods[p].organization_id != input.organization_id {
            return Err(StorageErrorOf::Domain(DomainFailure::DeliveryNotFound));
        }
        let settled = match resolve(&self.periods[p].lines[l], input, now) {
            Some(row) => row,
            None => {
                return Err(StorageErrorOf::Domain(DomainFailure::InvalidResolution));
            },
        };
        let view = match show_delivery(&self.periods[p], &settled) {
            Ok(view) => view,
            Err(error) => {
                return Err(error);
            },
        };
        self.settle_line(p, l, settled);
        let kept = Response::Delivery(view.copy());
        self.store_command(key, &input.request_hash, kept);
        Ok(view)
    }
}

impl BillingStore {
    /// The line `k` in the row `q` may be taken on and no one else holds it.
    spec fn open_here(
        &self,
        held: Set<Text>,
        max_attempts: i32,
        now: i128,
        q: int,
        k: int,
    ) -> bool {
        &&& 0 <= q < self.periods@.len()
        &&& 0 <= k < self.periods@[q].lines@.len()
        &&& claimable(self.periods@[q].lines@[k]@, max_attempts, now)
        &&& !held.contains(self.periods@[q].lines@[k].delivery_id@)
    }

    /// Nothing that was looked at before the line `l` in the row `p` goes before `best`.
    spec fn best_before(
        &self,
        held: Set<Text>,
        max_attempts: i32,
        now: i128,
        best: Option<(usize, usize)>,
        p: int,
        l: int,
    ) -> bool {
        match best {
            None => forall|q: int, k: int|
                (q < p || (q == p && k < l)) ==> !#[trigger] self.open_here(
                    held,
                    max_attempts,
                    now,
                    q,
                    k,
                ),
            Some((bp, bl)) => {
                &&& self.open_here(held, max_attempts, now, bp as int, bl as int)
                &&& forall|q: int, k: int|
                    (q < p || (q == p && k < l)) && #[trigger] self.open_here(
                        held,
                        max_attempts,
                        now,
                        q,
                        k,
                    ) ==> (q == bp && k == bl) || earlier(
                        self.periods@[bp as int].lines@[bl as int]@,
                        self.periods@[q].lines@[k]@,
                    )
            },
        }
    }

    /// A line of the tables and its place in the rows are open to a claim alike.
    proof fn lemma_open_here(
        &self,
        held: Set<Text>,
        max_attempts: i32,
        now: i128,
        id: Text,
        k: int,
    ) -> (q: int)
        requires
            self.wf(),
            open_to_claim(self@, held, max_attempts, now, id, k),
        ensures
            self.open_here(held, max_attempts, now, q, k),
            self.periods@[q].period_id@ == id,
            line(self@, id, k) == self.periods@[q].lines@[k]@,
    {
        self.lemma_period_place(id)
    }

    /// Where the delivery to take on next is stored.
    fn find_next(&self, held: &Vec<String>, max_attempts: i32, now: i128) -> (r: Option<
        (usize, usize),
    >)
        requires
            self.wf(),
        ensures
            match r {
                Some((p, l)) => {
                    &&& p < self.periods@.len()
                    &&& l < self.periods@[p as int].lines@.len()
                    &&& next_to_claim(
                        self@,
                        text_set(held@),
                        max_attempts,
                        now,
                        self.periods@[p as int].period_id@,
                        l as int,
                    )
                },
                None => !anything_to_claim(self@, text_set(held@), max_attempts, now),
            },
    {
        let ghost set = text_set(held@);
        let mut best: Option<(usize, usize)> = None;
        let mut p: usize = 0;
        while p < self.periods.len()
            invariant
                p <= self.periods.len(),
                self.wf(),
                set == text_set(held@),
                self.best_before(set, max_attempts, now, best, p as int, 0),
            decreases self.periods.len() - p,
        {
            let mut l: usize = 0;
            while l < self.periods[p].lines.len()
                invariant
                    p < self.periods.len(),
                    l <= self.periods@[p as int].lines@.len(),
                    self.wf(),
                    set == text_set(held@),
                    self.best_before(set, max_attempts, now, best, p as int, l as int),
                decreases self.periods@[p as int].lines@.len() - l,
            {
                let row = &self.periods[p].lines[l];
                let ghost old_best = best;
                if is_claimable(row, max_attempts, now) && !contains(
                    held,
                    row.delivery_id.as_str(),
                ) {
                    assert(self.open_here(set, max_attempts, now, p as int, l as int));
                    match best {
                        None => {
                            best = Some((p, l));
                        },
                        Some((bp, bl)) => {
                            let current = &self.periods[bp].lines[bl];
                            if is_earlier(row, current) {
                                best = Some((p, l));
                            }
                            proof {
                                self.lemma_step(set, max_attempts, now, old_best, best, p, l);
                            }
                        },
                    }
                }
                l = l + 1;
            }
            p = p + 1;
        }
        proof {
            match best {
                None => {
                    if anything_to_claim(self@, set, max_attempts, now) {
                        let (id, k) = choose|id: Text, k: int| #[trigger]
                            open_to_claim(self@, set, max_attempts, now, id, k);
                        let q = self.lemma_open_here(set, max_attempts, now, id, k);
                    }
                },
                Some((bp, bl)) => {
                    self.lemma_period_row(bp as int);
                    let id = self.periods@[bp as int].period_id@;
                    assert(open_to_claim(self@, set, max_attempts, now, id, bl as int));
                    assert forall|other: Text, j: int| #[trigger]
                        open_to_claim(self@, set, max_attempts, now, other, j) implies (other == id
                        && j == bl as int) || earlier(
                        line(self@, id, bl as int),
                        line(self@, other, j),
                    ) by {
                        let q = self.lemma_open_here(set, max_attempts, now, other, j);
                    }
                },
            }
        }
        best
    }

    /// Comparing the best line so far with the line `l` in the row `p` gives the best of both.
    proof fn lemma_step(
        &self,
        held: Set<Text>,
        max_attempts: i32,
        now: i128,
        best: Option<(usize, usize)>,
        next: Option<(usize, usize)>,
        p: usize,
        l: usize,
    )
        requires
            self.wf(),
            self.best_before(held, max_attempts, now, best, p as int, l as int),
            self.open_here(held, max_attempts, now, p as int, l as int),
            best matches Some((bp, bl)) && next == if earlier(
                self.periods@[p as int].lines@[l as int]@,
                self.periods@[bp as int].lines@[bl as int]@,
            ) {
                Some((p, l))
            } else {
                best
            },
        ensures
            self.best_before(held, max_attempts, now, next, p as int, l as int + 1),
    {
        let (bp, bl) = best->0;
        let (np, nl) = next->0;
        let b = self.periods@[bp as int].lines@[bl as int]@;
        let c = self.periods@[p as int].lines@[l as int]@;
        let n = self.periods@[np as int].lines@[nl as int]@;
        assert forall|q: int, k: int|
            (q < p || (q == p && k < l + 1)) && #[trigger] self.open_here(
                held,
                max_attempts,
                now,
                q,
                k,
            ) implies (q == np && k == nl) || earlier(n, self.periods@[q].lines@[k]@) by {
            let d = self.periods@[q].lines@[k]@;
            if earlier(c, b) {
                if !(q == p && k == l) {
                    if !(q == bp && k == bl) {
                        assert(earlier(b, d));
                        lemma_earlier_is_transitive(c, b, d);
                    }
                }
            } else if q == p && k == l && !(q == bp && k == bl) {
                self.lemma_period_row(bp as int);
                self.lemma_period_row(p as int);
                let ib = self.periods@[bp as int].period_id@;
                let ip = self.periods@[p as int].period_id@;
                assert(line_at(self@, ib, bl as int));
                assert(line_at(self@, ip, l as int));
                lemma_table_get(models(self.periods@), bp as int);
                lemma_table_get(models(self.periods@), p as int);
                if b.delivery_id == c.delivery_id {
                    assert(ib == ip && bl == l);
                    assert(models(self.periods@)[bp as int].period_id == models(
                        self.periods@,
                    )[p as int].period_id);
                }
                law_text_order_is_total(b.delivery_id, c.delivery_id);
            }
        }
    }

    /// Gives up every delivery whose attempts are used up.
    fn fail_exhausted(&mut self, max_attempts: i32, now: i128)
        requires
            old(self).wf(),
        ensures
            final(self).wf(),
            final(self)@ == tables_given_up(old(self)@, max_attempts, now),
            final(self).accounts@ == old(self).accounts@,
            final(self).periods@.len() == old(self).periods@.len(),
            forall|i: int|
                0 <= i < old(self).periods@.len() ==> (#[trigger] final(self).periods@[i])@
                    == period_given_up(old(self).periods@[i]@, max_attempts, now),
    {
        let mut after: Vec<PeriodRow> = Vec::new();
        let mut i: usize = 0;
        while i < self.periods.len()
            invariant
                i <= self.periods.len(),
                after.len() == i,
                forall|j: int|
                    0 <= j < i ==> (#[trigger] after@[j])@ == period_given_up(
                        self.periods@[j]@,
                        max_attempts,
                        now,
                    ),
            decreases self.periods.len() - i,
        {
            after.push(give_up(&self.periods[i], max_attempts, now));
            i = i + 1;
        }
        self.periods = after;
        proof {
            let rows = models(old(self).periods@);
            let written = models(self.periods@);
            assert forall|i: int| 0 <= i < rows.len() implies (
            #[trigger] written[i]).period_id == rows[i].period_id by {
                assert(self.periods@[i]@ == written[i]);
            }
            lemma_table_replace(rows, written);
            let t = old(self)@;
            let u = self@;
            let want = tables_given_up(t, max_attempts, now);
            assert forall|id: Text| #[trigger] want.periods.contains_key(id) implies u.periods[id]
                == want.periods[id] by {
                assert(has_key(rows, id));
                let i = choose|i: int| 0 <= i < rows.len() && (#[trigger] rows[i]).period_id == id;
                lemma_table_get(rows, i);
                assert(table(written)[rows[i].period_id] == written[i]);
                assert(self.periods@[i]@ == written[i]);
            }
            assert forall|id: Text| u.periods.contains_key(id) == want.periods.contains_key(id) by {
                assert(has_key(written, id) == has_key(rows, id));
            }
            assert(u.periods =~= want.periods);
            lemma_same_delivery_ids(t, u);
        }
    }

    /// Takes on the next delivery for a worker, under a lease. Deliveries whose attempts are used
    /// up are given up on the way. `held` are the deliveries that another worker is taking on at this
    /// moment: they are passed over.
    pub fn claim_next_delivery(
        &mut self,
        worker_id: &str,
        lease_seconds: i64,
        max_attempts: i32,
        held: &Vec<String>,
        now: i128,
    ) -> (r: Result<Option<DeliveryClaim>, StorageError>)
        requires
            old(self).wf(),
        ensures
            final(self).wf(),
            match claim_outcome(
                old(self)@,
                worker_id@,
                lease_seconds,
                max_attempts,
                text_set(held@),
                now,
            ) {
                Ok((state, None)) => r matches Ok(None) && final(self)@ == state,
                Ok((state, Some(claim))) => {
                    &&& r matches Ok(Some(taken))
                    &&& taken@ == claim
                    &&& final(self)@ == state
                },
                Err(failure) => {
                    &&& r matches Err(error)
                    &&& error@ == failure
                    &&& final(self)@ == old(self)@
                },
            },
    {
        let ghost set = text_set(held@);
        let ghost t = self@;
        let (p, l) = match self.find_next(held, max_attempts, now) {
            Some(place) => place,
            None => {
                self.fail_exhausted(max_attempts, now);
                return Ok(None);
            },
        };
        let ghost id = self.periods@[p as int].period_id@;
        proof {
            self.lemma_period_row(p as int);
            assert(open_to_claim(t, set, max_attempts, now, id, l as int));
            assert(next_to_claim(t, set, max_attempts, now, id, l as int));
            let (other, j) = choose|other: Text, j: int| #[trigger]
                next_to_claim(t, set, max_attempts, now, other, j);
            lemma_next_is_unique(t, set, max_attempts, now, id, l as int, other, j);
            assert(claim_outcome(t, worker_id@, lease_seconds, max_attempts, set, now) == claim_of(
                t,
                worker_id@,
                lease_seconds,
                max_attempts,
                now,
                id,
                l as int,
            ));
            assert(!spent(t.periods[id].lines[l as int], max_attempts));
        }
        let lease: i128 = lease_seconds as i128 * 1_000_000_000;
        let expiry: i128 = match now.checked_add(lease) {
            Some(expiry) => expiry,
            None => {
                return Err(database("claim billing delivery"));
            },
        };
        let a = match self.find_account(self.periods[p].account_id.as_str()) {
            Some(a) => a,
            None => {
                return Err(database("load claimed billing delivery"));
            },
        };
        let occurred_at = match format_rfc3339(self.periods[p].period_end) {
            Ok(text) => text,
            Err(message) => {
                return Err(StorageErrorOf::InvalidStored(message));
            },
        };
        self.fail_exhausted(max_attempts, now);
        let ghost rows = models(self.periods@[p as int].lines@);
        let mut row = copy_line(&self.periods[p].lines[l]);
        row.status = DeliveryStatus::InFlight;
        row.attempts = row.attempts + 1;
        row.lease_owner = Some(worker_id.to_owned());
        row.lease_expires_at = Some(expiry);
        row.failure_code = None;
        row.updated_at = now;
        let account = &self.accounts[a];
        let claim: DeliveryClaim = DeliveryClaimOf {
            period_id: self.periods[p].period_id.clone(),
            delivery_id: row.delivery_id.clone(),
            scope_kind: account.scope_kind.clone(),
            scope_id: account.scope_id.clone(),
            subject: account.subject.clone(),
            sink_meter: row.sink_meter.clone(),
            quantity: row.quantity.clone(),
            occurred_at,
            attempt: row.attempts,
        };
        let ghost taken = row@;
        let mut lines = copy_lines(&self.periods[p].lines);
        assert(lines@.len() == models(lines@).len());
        lines.set(l, row);
        proof {
            assert(models(lines@) =~= rows.update(l as int, taken));
            self.lemma_period_row(p as int);
            assert forall|i: int| 0 <= i < lines@.len() implies (
            #[trigger] lines@[i]).delivery_id@
                == self.periods@[p as int].lines@[i].delivery_id@ by {
                assert(models(lines@)[i].delivery_id == lines@[i].delivery_id@);
                assert(rows[i].delivery_id == self.periods@[p as int].lines@[i].delivery_id@);
            }
        }
        let status = self.periods[p].status;
        self.write_lines(p, lines, status);
        Ok(Some(claim))
    }
}

} // verus!
