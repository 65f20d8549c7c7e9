//! Pages of accounts and of periods.

use vstd::prelude::*;

use crate::error::{StorageError, StorageFailure};
use crate::model::{
    models, optional_text, AccountModel, AccountView, AccountViewModel, PeriodModel, PeriodView,
    PeriodViewModel,
};
use crate::order::{insert_text, is_listing, law_listing_is_unique, listing, text_before};
use crate::rows::{has_key, keys_distinct, lemma_table_get};
use crate::store::BillingStore;
use crate::tables::{
    account_ids, accounts_outcome, behind, page_cursor, page_ids, period_ids, periods_outcome,
    Tables,
};
use crate::text::{same_text, Text};

verus! {

/// The account is one to be listed.
spec fn account_wanted(row: AccountModel, organization_id: Text, cursor: Option<Text>) -> bool {
    row.organization_id == organization_id && behind(cursor, row.account_id)
}

/// The period is one to be listed.
spec fn period_wanted(
    row: PeriodModel,
    organization_id: Text,
    account_id: Text,
    cursor: Option<Text>,
) -> bool {
    &&& row.organization_id == organization_id
    &&& row.account_id == account_id
    &&& behind(cursor, row.period_id)
}

fn is_behind(cursor: &Option<String>, id: &str) -> (r: bool)
    ensures
        r == behind(optional_text(*cursor), id@),
{
    match cursor {
        Some(last) => text_before(last.as_str(), id),
        None => true,
    }
}

/// How many of the ids are on the page.
fn page_len(ids: &Vec<String>, limit: i64) -> (r: usize)
    requires
        0 <= limit,
    ensures
        r <= ids@.len(),
        models(ids@).take(r as int) == page_ids(models(ids@), limit as int),
        page_cursor(models(ids@), limit as int) is Some ==> 0 < r < ids@.len() && r == limit,
        0 < r < ids@.len() ==> page_cursor(models(ids@), limit as int) == Some(ids@[r - 1]@),
{
    assert(models(ids@).take(ids@.len() as int) =~= models(ids@));
    if (limit as u128) < (ids.len() as u128) {
        limit as usize
    } else {
        ids.len()
    }
}

/// The id behind which the next page goes on.
fn cursor_after(ids: &Vec<String>, limit: i64) -> (r: Option<String>)
    requires
        0 <= limit,
    ensures
        optional_text(r) == page_cursor(models(ids@), limit as int),
{
    let taken = page_len(ids, limit);
    if taken > 0 && taken < ids.len() {
        Some(ids[taken - 1].clone())
    } else {
        None
    }
}

impl BillingStore {
    /// The ids of the accounts to list, in order.
    fn ordered_account_ids(&self, organization_id: &str, cursor: &Option<String>) -> (r: Vec<
        String,
    >)
        requires
            self.wf(),
        ensures
            is_listing(models(r@), account_ids(self@, organization_id@, optional_text(*cursor))),
    {
        let ghost rows = models(self.accounts@);
        let ghost mut found: Set<Text> = Set::empty();
        let mut ids: Vec<String> = Vec::new();
        let mut i: usize = 0;
        while i < self.accounts.len()
            invariant
                i <= self.accounts@.len(),
                self.wf(),
                rows == models(self.accounts@),
                is_listing(models(ids@), found),
                forall|id: Text| #[trigger]
                    found.contains(id) <==> exists|j: int|
                        0 <= j < i && (#[trigger] rows[j]).account_id == id && account_wanted(
                            rows[j],
                            organization_id@,
                            optional_text(*cursor),
                        ),
            decreases self.accounts@.len() - i,
        {
            let row = &self.accounts[i];
            let ghost id = row.account_id@;
            assert(rows[i as int].account_id == id);
            if same_text(row.organization_id.as_str(), organization_id) && is_behind(
                cursor,
                row.account_id.as_str(),
            ) {
                proof {
                    if found.contains(id) {
                        let j = choose|j: int| 0 <= j < i && (#[trigger] rows[j]).account_id == id;
                        assert(keys_distinct(rows));
                    }
                }
                insert_text(&mut ids, row.account_id.clone(), Ghost(found));
                proof {
                    found = found.insert(id);
                }
            }
            i = i + 1;
        }
        proof {
            let wanted = account_ids(self@, organization_id@, optional_text(*cursor));
            assert forall|id: Text| #[trigger] models(ids@).contains(id) <==> wanted.contains(
                id,
            ) by {
                assert(models(ids@).contains(id) <==> found.contains(id));
                if found.contains(id) {
                    let j = choose|j: int|
                        0 <= j < i && (#[trigger] rows[j]).account_id == id && account_wanted(
                            rows[j],
                            organization_id@,
                            optional_text(*cursor),
                        );
                    lemma_table_get(rows, j);
                }
                if wanted.contains(id) {
                    assert(has_key(rows, id));
                    let j = choose|j: int|
                        0 <= j < rows.len() && (#[trigger] rows[j]).account_id == id;
                    lemma_table_get(rows, j);
                }
            }
        }
        ids
    }

    /// The ids of the periods to list, in order.
    fn ordered_period_ids(
        &self,
        organization_id: &str,
        account_id: &str,
        cursor: &Option<String>,
    ) -> (r: Vec<String>)
        requires
            self.wf(),
        ensures
            is_listing(
                models(r@),
                period_ids(self@, organization_id@, account_id@, optional_text(*cursor)),
            ),
    {
        let ghost rows = models(self.periods@);
        let ghost mut found: Set<Text> = Set::empty();
        let mut ids: Vec<String> = Vec::new();
        let mut i: usize = 0;
        while i < self.periods.len()
            invariant
                i <= self.periods@.len(),
                self.wf(),
                rows == models(self.periods@),
                is_listing(models(ids@), found),
                forall|id: Text| #[trigger]
                    found.contains(id) <==> exists|j: int|
                        0 <= j < i && (#[trigger] rows[j]).period_id == id && period_wanted(
                            rows[j],
                            organization_id@,
                            account_id@,
                            optional_text(*cursor),
                        ),
            decreases self.periods@.len() - i,
        {
            let row = &self.periods[i];
            let ghost id = row.period_id@;
            assert(rows[i as int].period_id == id);
            if same_text(row.organization_id.as_str(), organization_id) && same_text(
                row.account_id.as_str(),
                account_id,
            ) && is_behind(cursor, row.period_id.as_str()) {
                proof {
                    if found.contains(id) {
                        let j = choose|j: int| 0 <= j < i && (#[trigger] rows[j]).period_id == id;
                        assert(keys_distinct(rows));
                    }
                }
                insert_text(&mut ids, row.period_id.clone(), Ghost(found));
                proof {
                    found = found.insert(id);
                }
            }
            i = i + 1;
        }
        proof {
            let wanted = period_ids(self@, organization_id@, account_id@, optional_text(*cursor));
            assert forall|id: Text| #[trigger] models(ids@).contains(id) <==> wanted.contains(
                id,
            ) by {
                assert(models(ids@).contains(id) <==> found.contains(id));
                if found.contains(id) {
                    let j = choose|j: int|
                        0 <= j < i && (#[trigger] rows[j]).period_id == id && period_wanted(
                            rows[j],
                            organization_id@,
                            account_id@,
                            optional_text(*cursor),
                        );
                    lemma_table_get(rows, j);
                }
                if wanted.contains(id) {
                    assert(has_key(rows, id));
                    let j = choose|j: int|
                        0 <= j < rows.len() && (#[trigger] rows[j]).period_id == id;
                    lemma_table_get(rows, j);
                }
            }
        }
        ids
    }

    /// The first `limit` of the organization's accounts behind the cursor, by id, and the id behind
    /// which the next page goes on.
    pub fn list_accounts(
        &self,
        organization_id: &str,
        cursor: &Option<String>,
        limit: i64,
    ) -> (r: Result<(Vec<AccountView>, Option<String>), StorageError>)
        requires
            self.wf(),
            0 <= limit,
        ensures
            ({
                let wanted = account_ids(self@, organization_id@, optional_text(*cursor));
                let ids = listing(wanted);
                &&& is_listing(ids, wanted)
                &&& match accounts_outcome(self@, organization_id@, page_ids(ids, limit as int)) {
                    Err(failure) => r matches Err(error) && error@ == failure,
                    Ok(shown) => {
                        &&& r matches Ok((page, next))
                        &&& models(page@) == shown
                        &&& optional_text(next) == page_cursor(ids, limit as int)
                    },
                }
            }),
    {
        let found = self.ordered_account_ids(organization_id, cursor);
        let ghost ids = models(found@);
        let ghost wanted = account_ids(self@, organization_id@, optional_text(*cursor));
        proof {
            law_listing_is_unique(ids, listing(wanted), wanted);
        }
        let taken = page_len(&found, limit);
        let mut page: Vec<AccountView> = Vec::new();
        let mut i: usize = 0;
        assert(models(page@) =~= Seq::empty());
        while i < taken
            invariant
                i <= taken <= found@.len(),
                self.wf(),
                ids == models(found@),
                ids == listing(wanted),
                is_listing(ids, wanted),
                wanted == account_ids(self@, organization_id@, optional_text(*cursor)),
                ids.take(taken as int) == page_ids(ids, limit as int),
                accounts_outcome(self@, organization_id@, ids.take(i as int)) == Ok::<
                    Seq<AccountViewModel>,
                    StorageFailure,
                >(models(page@)),
            decreases taken - i,
        {
            assert(ids.take(i + 1).drop_last() =~= ids.take(i as int));
            assert(ids.take(i + 1).last() == found@[i as int]@);
            match self.get_account(organization_id, found[i].as_str()) {
                Ok(view) => {
                    let ghost before = models(page@);
                    let ghost shown = view@;
                    page.push(view);
                    assert(models(page@) =~= before.push(shown));
                },
                Err(error) => {
                    proof {
                        let whole = ids.take(taken as int);
                        assert(whole.take(i + 1) =~= ids.take(i + 1));
                        lemma_accounts_failure(self@, organization_id@, whole, i as int);
                    }
                    return Err(error);
                },
            }
            i = i + 1;
        }
        Ok((page, cursor_after(&found, limit)))
    }

    /// The first `limit` of the periods of the organization's account behind the cursor, by id, and
    /// the id behind which the next page goes on.
    pub fn list_periods(
        &self,
        organization_id: &str,
        account_id: &str,
        cursor: &Option<String>,
        limit: i64,
    ) -> (r: Result<(Vec<PeriodView>, Option<String>), StorageError>)
        requires
            self.wf(),
            0 <= limit,
        ensures
            ({
                let wanted = period_ids(
                    self@,
                    organization_id@,
                    account_id@,
                    optional_text(*cursor),
                );
                let ids = listing(wanted);
                &&& is_listing(ids, wanted)
                &&& match periods_outcome(self@, organization_id@, page_ids(ids, limit as int)) {
                    Err(failure) => r matches Err(error) && error@ == failure,
                    Ok(shown) => {
                        &&& r matches Ok((page, next))
                        &&& models(page@) == shown
                        &&& optional_text(next) == page_cursor(ids, limit as int)
                    },
                }
            }),
    {
        let found = self.ordered_period_ids(organization_id, account_id, cursor);
        let ghost ids = models(found@);
        let ghost wanted = period_ids(self@, organization_id@, account_id@, optional_text(*cursor));
        proof {
            law_listing_is_unique(ids, listing(wanted), wanted);
        }
        let taken = page_len(&found, limit);
        let mut page: Vec<PeriodView> = Vec::new();
        let mut i: usize = 0;
        assert(models(page@) =~= Seq::empty());
        while i < taken
            invariant
                i <= taken <= found@.len(),
                self.wf(),
                ids == models(found@),
                ids == listing(wanted),
                is_listing(ids, wanted),
                wanted == period_ids(self@, organization_id@, account_id@, optional_text(*cursor)),
                ids.take(taken as int) == page_ids(ids, limit as int),
                periods_outcome(self@, organization_id@, ids.take(i as int)) == Ok::<
                    Seq<PeriodViewModel>,
                    StorageFailure,
                >(models(page@)),
            decreases taken - i,
        {
            assert(ids.take(i + 1).drop_last() =~= ids.take(i as int));
            assert(ids.take(i + 1).last() == found@[i as int]@);
            match self.get_period(organization_id, found[i].as_str()) {
                Ok(view) => {
                    let ghost before = models(page@);
                    let ghost shown = view@;
                    page.push(view);
                    assert(models(page@) =~= before.push(shown));
                },
                Err(error) => {
                    proof {
                        let whole = ids.take(taken as int);
                        assert(whole.take(i + 1) =~= ids.take(i + 1));
                        lemma_periods_failure(self@, organization_id@, whole, i as int);
                    }
                    return Err(error);
                },
            }
            i = i + 1;
        }
        Ok((page, cursor_after(&found, limit)))
    }
}

/// The first failure is the failure of the whole list.
proof fn lemma_accounts_failure(t: Tables, organization_id: Text, ids: Seq<Text>, i: int)
    requires
        0 <= i < ids.len(),
        accounts_outcome(t, organization_id, ids.take(i + 1)) is Err,
    ensures
        accounts_outcome(t, organization_id, ids) == accounts_outcome(
            t,
            organization_id,
            ids.take(i + 1),
        ),
    decreases ids.len(),
{
    if i + 1 == ids.len() {
        assert(ids.take(i + 1) =~= ids);
    } else {
        assert(ids.drop_last().take(i + 1) =~= ids.take(i + 1));
        lemma_accounts_failure(t, organization_id, ids.drop_last(), i);
    }
}

/// The first failure is the failure of the whole list.
proof fn lemma_periods_failure(t: Tables, organization_id: Text, ids: Seq<Text>, i: int)
    requires
        0 <= i < ids.len(),
        periods_outcome(t, organization_id, ids.take(i + 1)) is Err,
    ensures
        periods_outcome(t, organization_id, ids) == periods_outcome(
            t,
            organization_id,
            ids.take(i + 1),
        ),
    decreases ids.len(),
{
    if i + 1 == ids.len() {
        assert(ids.take(i + 1) =~= ids);
    } else {
        assert(ids.drop_last().take(i + 1) =~= ids.take(i + 1));
        lemma_periods_failure(t, organization_id, ids.drop_last(), i);
    }
}

} // verus!
