//! The stored state that runs: the rows of a transaction, and how they are found.

mod accounts;
mod commands;
mod deliveries;
mod load;
mod pages;
mod periods;
mod show;

use vstd::prelude::*;

pub use self::commands::check_fingerprint;
pub use self::deliveries::refresh_period_status;
use crate::error::{StorageError, StorageFailure};
use crate::model::{
    models, AccountModel, AccountRow, CommandKey, CommandKeyModel, CommandModel, CommandRow,
    PeriodModel, PeriodRow,
};
use crate::rows::{has_key, keys_distinct, lemma_table_finite, lemma_table_get, table};
use crate::tables::{
    deliveries_distinct, delivery_place, delivery_stored, line, line_at, tables_ok, Tables,
};
use crate::text::{same_text, Text};

verus! {

/// The rows that a transaction has read, and that it writes back once it is done.
#[derive(Debug)]
pub struct BillingStore {
    pub(crate) accounts: Vec<AccountRow>,
    pub(crate) periods: Vec<PeriodRow>,
    pub(crate) commands: Vec<CommandRow>,
}

/// The tables that the rows make up.
pub open spec fn tables_of(
    accounts: Seq<AccountRow>,
    periods: Seq<PeriodRow>,
    commands: Seq<CommandRow>,
) -> Tables {
    Tables {
        accounts: table(models(accounts)),
        periods: table(models(periods)),
        commands: table(models(commands)),
    }
}

/// Every key and every delivery id occurs once in the rows.
pub open spec fn rows_distinct(
    accounts: Seq<AccountRow>,
    periods: Seq<PeriodRow>,
    commands: Seq<CommandRow>,
) -> bool {
    &&& keys_distinct(models(accounts))
    &&& keys_distinct(models(periods))
    &&& keys_distinct(models(commands))
    &&& deliveries_distinct(tables_of(accounts, periods, commands))
}

/// `r` is the wanted answer.
pub open spec fn answers<V: View>(
    r: Result<V, StorageError>,
    want: Result<V::V, StorageFailure>,
) -> bool {
    match want {
        Ok(answer) => r is Ok && r->Ok_0@ == answer,
        Err(failure) => r is Err && r->Err_0@ == failure,
    }
}

/// `r` is the wanted answer and `after` the wanted state; a failure leaves the state as it was.
pub open spec fn settles<V: View>(
    r: Result<V, StorageError>,
    before: Tables,
    after: Tables,
    want: Result<(Tables, V::V), StorageFailure>,
) -> bool {
    match want {
        Ok((state, answer)) => r is Ok && r->Ok_0@ == answer && after == state,
        Err(failure) => r is Err && r->Err_0@ == failure && after == before,
    }
}

impl View for BillingStore {
    type V = Tables;

    closed spec fn view(&self) -> Tables {
        tables_of(self.accounts@, self.periods@, self.commands@)
    }
}

impl BillingStore {
    /// Every key and every delivery id occurs once.
    pub closed spec fn wf(&self) -> bool {
        rows_distinct(self.accounts@, self.periods@, self.commands@)
    }

    /// The tables that a store stands for are consistent.
    pub proof fn law_store_is_consistent(&self)
        requires
            self.wf(),
        ensures
            tables_ok(self@),
    {
        let t = self@;
        lemma_table_finite(models(self.periods@));
        let rows = models(self.accounts@);
        assert forall|id: Text| #[trigger]
            t.accounts.contains_key(id) implies t.accounts[id].account_id == id by {
            assert(has_key(rows, id));
            let i = choose|i: int| 0 <= i < rows.len() && (#[trigger] rows[i]).account_id == id;
            lemma_table_get(rows, i);
        }
        let rows = models(self.periods@);
        assert forall|id: Text| #[trigger]
            t.periods.contains_key(id) implies t.periods[id].period_id == id by {
            assert(has_key(rows, id));
            let i = choose|i: int| 0 <= i < rows.len() && (#[trigger] rows[i]).period_id == id;
            lemma_table_get(rows, i);
        }
        let rows = models(self.commands@);
        assert forall|key| #[trigger] t.commands.contains_key(key) implies t.commands[key].key
            == key by {
            assert(has_key(rows, key));
            let i = choose|i: int| 0 <= i < rows.len() && (#[trigger] rows[i]).key == key;
            lemma_table_get(rows, i);
        }
    }

    /// A store without any rows.
    pub fn new() -> (r: Self)
        ensures
            r.wf(),
            r@.accounts == Map::<Text, AccountModel>::empty(),
            r@.periods == Map::<Text, PeriodModel>::empty(),
            r@.commands == Map::<
                CommandKeyModel,
                CommandModel,
            >::empty(),
    {
        let r = BillingStore { accounts: Vec::new(), periods: Vec::new(), commands: Vec::new() };
        assert(r@.accounts =~= Map::empty());
        assert(r@.periods =~= Map::empty());
        assert(r@.commands =~= Map::empty());
        r
    }

    pub(crate) fn find_account(&self, account_id: &str) -> (r: Option<usize>)
        requires
            self.wf(),
        ensures
            match r {
                Some(i) => {
                    &&& i < self.accounts@.len()
                    &&& self.accounts@[i as int].account_id@ == account_id@
                    &&& self@.accounts.contains_key(account_id@)
                    &&& self@.accounts[account_id@] == self.accounts@[i as int]@
                },
                None => !self@.accounts.contains_key(account_id@),
            },
    {
        let ghost rows = models(self.accounts@);
        let mut i: usize = 0;
        while i < self.accounts.len()
            invariant
                i <= self.accounts.len(),
                self.wf(),
                rows == models(self.accounts@),
                forall|j: int| 0 <= j < i ==> (#[trigger] rows[j]).account_id != account_id@,
            decreases self.accounts.len() - i,
        {
            if same_text(self.accounts[i].account_id.as_str(), account_id) {
                proof {
                    assert(rows[i as int].account_id == account_id@);
                    lemma_table_get(rows, i as int);
                }
                return Some(i);
            }
            i = i + 1;
        }
        assert(!has_key(rows, account_id@));
        None
    }

    pub(crate) fn find_period(&self, period_id: &str) -> (r: Option<usize>)
        requires
            self.wf(),
        ensures
            match r {
                Some(i) => {
                    &&& i < self.periods@.len()
                    &&& self.periods@[i as int].period_id@ == period_id@
                    &&& self@.periods.contains_key(period_id@)
                    &&& self@.periods[period_id@] == self.periods@[i as int]@
                },
                None => !self@.periods.contains_key(period_id@),
            },
    {
        let ghost rows = models(self.periods@);
        let mut i: usize = 0;
        while i < self.periods.len()
            invariant
                i <= self.periods.len(),
                self.wf(),
                rows == models(self.periods@),
                forall|j: int| 0 <= j < i ==> (#[trigger] rows[j]).period_id != period_id@,
            decreases self.periods.len() - i,
        {
            if same_text(self.periods[i].period_id.as_str(), period_id) {
                proof {
                    assert(rows[i as int].period_id == period_id@);
                    lemma_table_get(rows, i as int);
                }
                return Some(i);
            }
            i = i + 1;
        }
        assert(!has_key(rows, period_id@));
        None
    }

    pub(crate) fn find_command(&self, key: &CommandKey) -> (r: Option<usize>)
        requires
            self.wf(),
        ensures
            match r {
                Some(i) => {
                    &&& i < self.commands@.len()
                    &&& self.commands@[i as int].key@ == key@
                    &&& self@.commands.contains_key(key@)
                    &&& self@.commands[key@] == self.commands@[i as int]@
                },
                None => !self@.commands.contains_key(key@) && !has_key(
                    models(self.commands@),
                    key@,
                ),
            },
    {
        let ghost rows = models(self.commands@);
        let mut i: usize = 0;
        while i < self.commands.len()
            invariant
                i <= self.commands.len(),
                self.wf(),
                rows == models(self.commands@),
                forall|j: int| 0 <= j < i ==> (#[trigger] rows[j]).key != key@,
            decreases self.commands.len() - i,
        {
            if self.commands[i].key.same(key) {
                proof {
                    assert(rows[i as int].key == key@);
                    lemma_table_get(rows, i as int);
                }
                return Some(i);
            }
            i = i + 1;
        }
        assert(!has_key(rows, key@));
        None
    }

    /// The row of a period stands at one place of the vector, and its lines at the same places.
    pub(crate) proof fn lemma_period_row(&self, i: int)
        requires
            self.wf(),
            0 <= i < self.periods@.len(),
        ensures
            self@.periods.contains_key(self.periods@[i].period_id@),
            self@.periods[self.periods@[i].period_id@] == self.periods@[i]@,
            models(self.periods@)[i] == self.periods@[i]@,
    {
        lemma_table_get(models(self.periods@), i);
    }

    /// Every period of the tables stands in the vector.
    pub(crate) proof fn lemma_period_place(&self, id: Text) -> (i: int)
        requires
            self.wf(),
            self@.periods.contains_key(id),
        ensures
            0 <= i < self.periods@.len(),
            self.periods@[i].period_id@ == id,
            self@.periods[id] == self.periods@[i]@,
    {
        let rows = models(self.periods@);
        assert(has_key(rows, id));
        let i = choose|i: int| 0 <= i < rows.len() && (#[trigger] rows[i]).period_id == id;
        lemma_table_get(rows, i);
        i
    }

    pub(crate) fn find_delivery(&self, delivery_id: &str) -> (r: Option<(usize, usize)>)
        requires
            self.wf(),
        ensures
            match r {
                Some((p, l)) => {
                    &&& p < self.periods@.len()
                    &&& l < self.periods@[p as int].lines@.len()
                    &&& self.periods@[p as int].lines@[l as int].delivery_id@ == delivery_id@
                    &&& delivery_stored(self@, delivery_id@)
                    &&& delivery_place(self@, delivery_id@) == (
                        self.periods@[p as int].period_id@,
                        l as int,
                    )
                    &&& self@.periods[self.periods@[p as int].period_id@]
                        == self.periods@[p as int]@
                    &&& self@.periods.contains_key(self.periods@[p as int].period_id@)
                },
                None => !delivery_stored(self@, delivery_id@),
            },
    {
        let mut p: usize = 0;
        while p < self.periods.len()
            invariant
                p <= self.periods.len(),
                self.wf(),
                forall|q: int, k: int|
                    0 <= q < p && 0 <= k < self.periods@[q].lines@.len() ==> (
                    #[trigger] self.periods@[q].lines@[k]).delivery_id@ != delivery_id@,
            decreases self.periods.len() - p,
        {
            let mut l: usize = 0;
            while l < self.periods[p as usize].lines.len()
                invariant
                    p < self.periods.len(),
                    l <= self.periods@[p as int].lines@.len(),
                    self.wf(),
                    forall|k: int|
                        0 <= k < l ==> (
                        #[trigger] self.periods@[p as int].lines@[k]).delivery_id@ != delivery_id@,
                decreases self.periods@[p as int].lines@.len() - l,
            {
                if same_text(self.periods[p].lines[l].delivery_id.as_str(), delivery_id) {
                    proof {
                        self.lemma_period_row(p as int);
                        let id = self.periods@[p as int].period_id@;
                        assert(line_at(self@, id, l as int));
                        assert(line(self@, id, l as int).delivery_id == delivery_id@);
                        let (other, k) = delivery_place(self@, delivery_id@);
                        assert(line_at(self@, other, k));
                    }
                    return Some((p, l));
                }
                l = l + 1;
            }
            p = p + 1;
        }
        proof {
            if delivery_stored(self@, delivery_id@) {
                let (id, k) = delivery_place(self@, delivery_id@);
                assert(line_at(self@, id, k));
                let q = self.lemma_period_place(id);
                assert(self.periods@[q].lines@[k].delivery_id@ == delivery_id@);
            }
        }
        None
    }
}

/// What the contracts of the operations say: the wanted answer is given and the wanted state is
/// left; or the wanted failure is given, and the state is left as it was.
pub proof fn law_operations_answer_and_settle<V: View>(
    r: Result<V, StorageError>,
    before: Tables,
    after: Tables,
    want: Result<(Tables, V::V), StorageFailure>,
    read: Result<V::V, StorageFailure>,
)
    ensures
        settles(r, before, after, want) ==> {
            &&& r is Ok <==> want is Ok
            &&& r matches Ok(answer) ==> answer@ == want->Ok_0.1 && after == want->Ok_0.0
            &&& r matches Err(error) ==> error@ == want->Err_0 && after == before
        },
        answers(r, read) ==> {
            &&& r is Ok <==> read is Ok
            &&& r matches Ok(answer) ==> answer@ == read->Ok_0
            &&& r matches Err(error) ==> error@ == read->Err_0
        },
{
}

} // verus!
