//! Accounts: full replacement at an expected revision, and reading.

use vstd::prelude::*;

use crate::error::{database, DomainFailure, StorageError, StorageErrorOf};
use crate::input::PutAccount;
use crate::model::{
    copy_meters, models, AccountRow, AccountRowOf, AccountView, CommandKey, CommandKeyOf, Operation,
    Response,
};
use crate::order::sort_rows;
use crate::rows::{lemma_table_push, lemma_table_update};
use crate::store::show::show_account;
use crate::store::{answers, settles, BillingStore};
use crate::tables::{account_outcome, lemma_same_periods, put_key, put_outcome, put_row};
use crate::text::same_text;

verus! {

fn command_key(input: &PutAccount) -> (r: CommandKey)
    ensures
        r@ == put_key(*input),
{
    CommandKeyOf {
        caller: input.caller.clone(),
        actor: input.actor.clone(),
        operation: Operation::PutAccount,
        idempotency_key: input.idempotency_key.clone(),
    }
}

impl BillingStore {
    /// The row that the put writes, and where: at the end, or over the account's present row.
    fn prepare_account(&self, input: &PutAccount, now: i128) -> (r: Result<
        (AccountRow, Option<usize>),
        StorageError,
    >)
        requires
            self.wf(),
        ensures
            match put_row(self@, *input, now) {
                Err(failure) => r matches Err(error) && error@ == failure,
                Ok(row) => r matches Ok((written, place)) && written@ == row && (match place {
                    Some(i) => i < self.accounts@.len() && self.accounts@[i as int].account_id@
                        == row.account_id,
                    None => !self@.accounts.contains_key(row.account_id),
                }),
            },
    {
        match self.find_account(input.account_id.as_str()) {
            None => if input.expected_revision == 0 {
                Ok(
                    (
                        AccountRowOf {
                            organization_id: input.organization_id.clone(),
                            account_id: input.account_id.clone(),
                            scope_kind: input.scope_kind.clone(),
                            scope_id: input.scope_id.clone(),
                            subject: input.subject.clone(),
                            currency: input.currency.clone(),
                            status: input.status,
                            revision: 1,
                            created_at: now,
                            updated_at: now,
                            meters: sort_rows(copy_meters(&input.meters)),
                        },
                        None,
                    ),
                )
            } else {
                Err(StorageErrorOf::Domain(DomainFailure::RevisionConflict))
            },
            Some(i) => {
                let current = &self.accounts[i];
                if current.organization_id != input.organization_id {
                    return Err(StorageErrorOf::Domain(DomainFailure::NotFound));
                }
                if current.revision != input.expected_revision {
                    return Err(StorageErrorOf::Domain(DomainFailure::RevisionConflict));
                }
                if current.revision == i64::MAX {
                    return Err(database("update billing account"));
                }
                Ok(
                    (
                        AccountRowOf {
                            organization_id: current.organization_id.clone(),
                            account_id: current.account_id.clone(),
                            scope_kind: input.scope_kind.clone(),
                            scope_id: input.scope_id.clone(),
                            subject: input.subject.clone(),
                            currency: input.currency.clone(),
                            status: input.status,
                            revision: current.revision + 1,
                            created_at: current.created_at,
                            updated_at: now,
                            meters: sort_rows(copy_meters(&input.meters)),
                        },
                        Some(i),
                    ),
                )
            },
        }
    }

    /// Replaces an account and all its meter mappings at once, if it stands at the expected
    /// revision. The same request again gives the same answer and changes nothing.
    pub fn put_account(&mut self, input: &PutAccount, now: i128) -> (r: Result<
        AccountView,
        StorageError,
    >)
        requires
            old(self).wf(),
        ensures
            final(self).wf(),
            settles(r, old(self)@, final(self)@, put_outcome(old(self)@, *input, now)),
    {
        let key = command_key(input);
        match self.replay(&key, &input.request_hash) {
            Err(error) => {
                return Err(error);
            },
            Ok(Some(Response::Account(view))) => {
                return Ok(view);
            },
            Ok(Some(_)) => {
                return Err(StorageErrorOf::Serialization);
            },
            Ok(None) => {},
        }
        let (row, place) = match self.prepare_account(input, now) {
            Ok(prepared) => prepared,
            Err(error) => {
                return Err(error);
            },
        };
        let view = match show_account(&row) {
            Ok(view) => view,
            Err(error) => {
                return Err(error);
            },
        };
        let ghost before = models(self.accounts@);
        let ghost written = row@;
        match place {
            None => {
                proof {
                    lemma_table_push(before, written);
                }
                self.accounts.push(row);
                assert(models(self.accounts@) =~= before.push(written));
            },
            Some(i) => {
                proof {
                    assert(before[i as int].account_id == written.account_id);
                    lemma_table_update(before, i as int, written);
                }
                self.accounts.set(i, row);
                assert(models(self.accounts@) =~= before.update(i as int, written));
            },
        }
        assert(self@.accounts == old(self)@.accounts.insert(written.account_id, written));
        proof {
            lemma_same_periods(old(self)@, self@);
        }
        let kept = Response::Account(view.copy());
        self.store_command(key, &input.request_hash, kept);
        Ok(view)
    }

    /// The organization's account.
    pub fn get_account(&self, organization_id: &str, account_id: &str) -> (r: Result<
        AccountView,
        StorageError,
    >)
        requires
            self.wf(),
        ensures
            answers(r, account_outcome(self@, organization_id@, account_id@)),
    {
        match self.find_account(account_id) {
            Some(i) => if same_text(
                self.accounts[i].organization_id.as_str(),
                organization_id,
            ) {
                show_account(&self.accounts[i])
            } else {
                Err(StorageErrorOf::Domain(DomainFailure::NotFound))
            },
            None => Err(StorageErrorOf::Domain(DomainFailure::NotFound)),
        }
    }
}

} // verus!
