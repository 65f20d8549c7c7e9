//! Rows read in and rows to be written back.

use vstd::prelude::*;

use crate::model::{models, AccountRow, CommandRow, PeriodRow};
use crate::rows::{has_key, keys_distinct, lemma_table_get};
use crate::store::{rows_distinct, tables_of, BillingStore};
use crate::tables::{deliveries_distinct, line, line_at};
use crate::text::{same_text, Text};

verus! {

/// The line `k` of the row `q` stands before the line `l` of the row `p`.
spec fn before(q: int, k: int, p: int, l: int) -> bool {
    q < p || (q == p && k < l)
}

spec fn is_place(periods: Seq<PeriodRow>, p: int, l: int) -> bool {
    0 <= p < periods.len() && 0 <= l < periods[p].lines@.len()
}

spec fn id_at(periods: Seq<PeriodRow>, p: int, l: int) -> Text {
    periods[p].lines@[l].delivery_id@
}

/// An earlier line holds the same delivery id.
spec fn repeated(periods: Seq<PeriodRow>, p: int, l: int) -> bool {
    exists|q: int, k: int| #[trigger]
        is_place(periods, q, k) && before(q, k, p, l) && id_at(periods, q, k) == id_at(
            periods,
            p,
            l,
        )
}

fn is_repeated(periods: &Vec<PeriodRow>, p: usize, l: usize) -> (r: bool)
    requires
        is_place(periods@, p as int, l as int),
    ensures
        r == repeated(periods@, p as int, l as int),
{
    let ghost id = id_at(periods@, p as int, l as int);
    let mut q: usize = 0;
    while q <= p
        invariant
            q <= p + 1,
            p < periods.len(),
            is_place(periods@, p as int, l as int),
            id == id_at(periods@, p as int, l as int),
            forall|a: int, b: int| #[trigger]
                is_place(periods@, a, b) && a < q && before(a, b, p as int, l as int) ==> id_at(
                    periods@,
                    a,
                    b,
                ) != id,
        decreases p + 1 - q,
    {
        let end: usize = if q < p { periods[q].lines.len() } else { l };
        let mut k: usize = 0;
        while k < end
            invariant
                k <= end <= periods@[q as int].lines@.len(),
                q <= p,
                q < p ==> end == periods@[q as int].lines@.len(),
                q == p ==> end == l,
                is_place(periods@, p as int, l as int),
                id == id_at(periods@, p as int, l as int),
                forall|b: int|
                    0 <= b < k ==> #[trigger] id_at(periods@, q as int, b) != id,
            decreases end - k,
        {
            if same_text(
                periods[q].lines[k].delivery_id.as_str(),
                periods[p].lines[l].delivery_id.as_str(),
            ) {
                assert(is_place(periods@, q as int, k as int));
                assert(before(q as int, k as int, p as int, l as int));
                return true;
            }
            assert(id_at(periods@, q as int, k as int) != id);
            k = k + 1;
        }
        q = q + 1;
    }
    false
}

impl BillingStore {
    fn account_keys_distinct(&self) -> (r: bool)
        ensures
            r == keys_distinct(models(self.accounts@)),
    {
        let ghost rows = models(self.accounts@);
        let mut i: usize = 0;
        while i < self.accounts.len()
            invariant
                i <= self.accounts@.len(),
                rows == models(self.accounts@),
                forall|j: int, k: int|
                    0 <= j < k < i ==> (#[trigger] rows[j]).account_id != (
                    #[trigger] rows[k]).account_id,
            decreases self.accounts@.len() - i,
        {
            let mut j: usize = 0;
            while j < i
                invariant
                    j <= i < self.accounts@.len(),
                    rows == models(self.accounts@),
                    forall|k: int|
                        0 <= k < j ==> (#[trigger] rows[k]).account_id != rows[i as int].account_id,
                decreases i - j,
            {
                if self.accounts[j].account_id == self.accounts[i].account_id {
                    assert(rows[j as int].account_id == rows[i as int].account_id);
                    return false;
                }
                j = j + 1;
            }
            i = i + 1;
        }
        true
    }

    fn period_keys_distinct(&self) -> (r: bool)
        ensures
            r == keys_distinct(models(self.periods@)),
    {
        let ghost rows = models(self.periods@);
        let mut i: usize = 0;
        while i < self.periods.len()
            invariant
                i <= self.periods@.len(),
                rows == models(self.periods@),
                forall|j: int, k: int|
                    0 <= j < k < i ==> (#[trigger] rows[j]).period_id != (
                    #[trigger] rows[k]).period_id,
            decreases self.periods@.len() - i,
        {
            let mut j: usize = 0;
            while j < i
                invariant
                    j <= i < self.periods@.len(),
                    rows == models(self.periods@),
                    forall|k: int|
                        0 <= k < j ==> (#[trigger] rows[k]).period_id != rows[i as int].period_id,
                decreases i - j,
            {
                if self.periods[j].period_id == self.periods[i].period_id {
                    assert(rows[j as int].period_id == rows[i as int].period_id);
                    return false;
                }
                j = j + 1;
            }
            i = i + 1;
        }
        true
    }

    fn command_keys_distinct(&self) -> (r: bool)
        ensures
            r == keys_distinct(models(self.commands@)),
    {
        let ghost rows = models(self.commands@);
        let mut i: usize = 0;
        while i < self.commands.len()
            invariant
                i <= self.commands@.len(),
                rows == models(self.commands@),
                forall|j: int, k: int|
                    0 <= j < k < i ==> (#[trigger] rows[j]).key != (#[trigger] rows[k]).key,
            decreases self.commands@.len() - i,
        {
            let mut j: usize = 0;
            while j < i
                invariant
                    j <= i < self.commands@.len(),
                    rows == models(self.commands@),
                    forall|k: int| 0 <= k < j ==> (#[trigger] rows[k]).key != rows[i as int].key,
                decreases i - j,
            {
                if self.commands[j].key.same(&self.commands[i].key) {
                    assert(rows[j as int].key == rows[i as int].key);
                    return false;
                }
                j = j + 1;
            }
            i = i + 1;
        }
        true
    }

    /// The lines of the tables are the lines of the rows.
    proof fn lemma_places(&self)
        requires
            keys_distinct(models(self.periods@)),
        ensures
            deliveries_distinct(self@) <==> forall|p: int, l: int| #[trigger]
                is_place(self.periods@, p, l) ==> !repeated(self.periods@, p, l),
    {
        let rows = models(self.periods@);
        let periods = self.periods@;
        let t = self@;
        if deliveries_distinct(t) {
            assert forall|p: int, l: int| #[trigger]
                is_place(periods, p, l) implies !repeated(periods, p, l) by {
                if repeated(periods, p, l) {
                    let (q, k) = choose|q: int, k: int| #[trigger]
                        is_place(periods, q, k) && before(q, k, p, l) && id_at(periods, q, k)
                            == id_at(periods, p, l);
                    lemma_table_get(rows, p);
                    lemma_table_get(rows, q);
                    let (a, b) = (rows[q].period_id, rows[p].period_id);
                    assert(line_at(t, a, k) && line_at(t, b, l));
                    assert(line(t, a, k).delivery_id == line(t, b, l).delivery_id);
                    assert(rows[p] == rows[q]);
                }
            }
        }
        if forall|p: int, l: int| #[trigger]
            is_place(periods, p, l) ==> !repeated(periods, p, l) {
            assert forall|a: Text, i: int, b: Text, j: int|
                #[trigger] line_at(t, a, i) && #[trigger] line_at(t, b, j) && line(
                    t,
                    a,
                    i,
                ).delivery_id == line(t, b, j).delivery_id implies a == b && i == j by {
                assert(has_key(rows, a) && has_key(rows, b));
                let q = choose|q: int| 0 <= q < rows.len() && (#[trigger] rows[q]).period_id == a;
                let p = choose|p: int| 0 <= p < rows.len() && (#[trigger] rows[p]).period_id == b;
                lemma_table_get(rows, q);
                lemma_table_get(rows, p);
                assert(is_place(periods, q, i) && is_place(periods, p, j));
                assert(id_at(periods, q, i) == id_at(periods, p, j));
                if before(q, i, p, j) {
                    assert(repeated(periods, p, j));
                }
                if before(p, j, q, i) {
                    assert(repeated(periods, q, i));
                }
            }
        }
    }

    fn delivery_ids_distinct(&self) -> (r: bool)
        requires
            keys_distinct(models(self.periods@)),
        ensures
            r == deliveries_distinct(self@),
    {
        proof {
            self.lemma_places();
        }
        let mut p: usize = 0;
        while p < self.periods.len()
            invariant
                p <= self.periods@.len(),
                deliveries_distinct(self@) <==> forall|a: int, b: int| #[trigger]
                    is_place(self.periods@, a, b) ==> !repeated(self.periods@, a, b),
                forall|a: int, b: int| #[trigger]
                    is_place(self.periods@, a, b) && a < p ==> !repeated(self.periods@, a, b),
            decreases self.periods@.len() - p,
        {
            let mut l: usize = 0;
            while l < self.periods[p].lines.len()
                invariant
                    p < self.periods@.len(),
                    l <= self.periods@[p as int].lines@.len(),
                    deliveries_distinct(self@) <==> forall|a: int, b: int| #[trigger]
                        is_place(self.periods@, a, b) ==> !repeated(self.periods@, a, b),
                    forall|b: int|
                        0 <= b < l ==> !#[trigger] repeated(self.periods@, p as int, b),
                decreases self.periods@[p as int].lines@.len() - l,
            {
                assert(is_place(self.periods@, p as int, l as int));
                if is_repeated(&self.periods, p, l) {
                    return false;
                }
                l = l + 1;
            }
            p = p + 1;
        }
        true
    }

    /// The store of these rows, unless a key or a delivery id occurs twice among them.
    pub fn from_rows(
        accounts: Vec<AccountRow>,
        periods: Vec<PeriodRow>,
        commands: Vec<CommandRow>,
    ) -> (r: Option<Self>)
        ensures
            r is Some <==> rows_distinct(accounts@, periods@, commands@),
            r matches Some(store) ==> store.wf() && store@ == tables_of(
                accounts@,
                periods@,
                commands@,
            ),
    {
        let store = BillingStore { accounts, periods, commands };
        if store.account_keys_distinct() && store.period_keys_distinct()
            && store.command_keys_distinct() && store.delivery_ids_distinct() {
            Some(store)
        } else {
            None
        }
    }

    /// The rows of the store.
    pub fn into_rows(self) -> (r: (Vec<AccountRow>, Vec<PeriodRow>, Vec<CommandRow>))
        requires
            self.wf(),
        ensures
            rows_distinct(r.0@, r.1@, r.2@),
            tables_of(r.0@, r.1@, r.2@) == self@,
    {
        (self.accounts, self.periods, self.commands)
    }
}

} // verus!
