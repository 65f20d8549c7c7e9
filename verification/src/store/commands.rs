//! Finished commands: their answers are kept and given again.

use vstd::prelude::*;

use crate::error::{DomainFailure, StorageError, StorageErrorOf};
use crate::model::{models, CommandKey, CommandRow, CommandRowOf, Response};
use crate::rows::lemma_table_push;
use crate::store::BillingStore;
use crate::tables::{lemma_same_periods, refused, replayed, with_command};

verus! {

fn same_bytes(left: &Vec<u8>, right: &Vec<u8>) -> (r: bool)
    ensures
        r == (left@ == right@),
{
    if left.len() != right.len() {
        return false;
    }
    let mut i: usize = 0;
    while i < left.len()
        invariant
            i <= left.len(),
            left.len() == right.len(),
            forall|j: int| 0 <= j < i ==> left@[j] == right@[j],
        decreases left.len() - i,
    {
        if left[i] != right[i] {
            return false;
        }
        i = i + 1;
    }
    assert(left@ =~= right@);
    true
}

/// Whether a command that was kept under this fingerprint is the one that is asked for.
pub fn check_fingerprint(kept: &Vec<u8>, request_hash: &Vec<u8>) -> (r: Result<(), StorageError>)
    ensures
        match r {
            Ok(_) => kept@ == request_hash@,
            Err(error) => kept@ != request_hash@ && error@ == refused(
                DomainFailure::IdempotencyConflict,
            ),
        },
{
    if same_bytes(kept, request_hash) {
        Ok(())
    } else {
        Err(StorageErrorOf::Domain(DomainFailure::IdempotencyConflict))
    }
}

fn copy_response(response: &Response) -> (r: Response)
    ensures
        r@ == response@,
{
    match response {
        Response::Account(view) => Response::Account(view.copy()),
        Response::Period(view) => Response::Period(view.copy()),
        Response::Delivery(view) => Response::Delivery(view.copy()),
    }
}

impl BillingStore {
    /// The answer kept under `key` for this very request, if the command is finished.
    pub fn replay(&self, key: &CommandKey, request_hash: &Vec<u8>) -> (r: Result<
        Option<Response>,
        StorageError,
    >)
        requires
            self.wf(),
        ensures
            match replayed(self@, key@, request_hash@) {
                Ok(None) => r matches Ok(None),
                Ok(Some(response)) => r matches Ok(Some(kept)) && kept@ == response,
                Err(failure) => r matches Err(error) && error@ == failure,
            },
    {
        match self.find_command(key) {
            None => Ok(None),
            Some(i) => match check_fingerprint(&self.commands[i].request_hash, request_hash) {
                Ok(_) => Ok(Some(copy_response(&self.commands[i].response))),
                Err(error) => Err(error),
            },
        }
    }

    /// Keeps the answer of a command that is not finished yet.
    pub(crate) fn store_command(
        &mut self,
        key: CommandKey,
        request_hash: &Vec<u8>,
        response: Response,
    )
        requires
            old(self).wf(),
            !old(self)@.commands.contains_key(key@),
        ensures
            final(self).wf(),
            final(self)@ == with_command(old(self)@, key@, request_hash@, response@),
            final(self).accounts@ == old(self).accounts@,
            final(self).periods@ == old(self).periods@,
    {
        let ghost rows = models(self.commands@);
        let mut hash: Vec<u8> = Vec::new();
        let mut i: usize = 0;
        while i < request_hash.len()
            invariant
                i <= request_hash.len(),
                hash@ == request_hash@.take(i as int),
            decreases request_hash.len() - i,
        {
            hash.push(request_hash[i]);
            i = i + 1;
        }
        assert(hash@ =~= request_hash@);
        let ghost row = CommandRowOf {
            key: key@,
            request_hash: request_hash@,
            response: response@,
        };
        let command: CommandRow = CommandRowOf { key, request_hash: hash, response };
        self.commands.push(command);
        proof {
            lemma_table_push(rows, row);
            assert(models(self.commands@) =~= rows.push(row));
            lemma_same_periods(old(self)@, self@);
            assert(self@ =~= with_command(old(self)@, row.key, row.request_hash, row.response));
        }
    }
}

} // verus!
