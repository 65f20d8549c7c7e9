//! Accounts: full replacement at an expected revision.

use vstd::prelude::*;

use crate::decimal::integer_text;
use crate::error::{DomainFailure, StorageErrorOf, StorageFailure};
use crate::input::PutAccount;
use crate::instant::rfc3339_text;
use crate::laws::records::{can_be_said, law_account_is_shown_as_stored};
use crate::laws::{after, after_all, law_events_keep_tables_consistent, Event};
use crate::model::{
    models, AccountViewModel, CommandKeyModel, CommandKeyOf, MeterView, Operation, ResponseModel,
};
use crate::order::{in_order, law_rows_are_put_in_order, ordered, text_less};
use crate::tables::{account_outcome, put_key, put_outcome, refused, tables_ok, Tables};
use crate::text::Text;

verus! {

/// An account never goes away, never changes its organization or the instant it was made at, and
/// its revision never falls.
pub proof fn law_accounts_stay(t: Tables, event: Event, id: Text)
    requires
        tables_ok(t),
        t.accounts.contains_key(id),
    ensures
        after(t, event).accounts.contains_key(id),
        after(t, event).accounts[id].organization_id == t.accounts[id].organization_id,
        after(t, event).accounts[id].created_at == t.accounts[id].created_at,
        after(t, event).accounts[id].revision >= t.accounts[id].revision,
{
}

/// The configuration of an account changes only together with its revision, which grows by one.
pub proof fn law_configuration_changes_with_revision(t: Tables, event: Event, id: Text)
    requires
        tables_ok(t),
        t.accounts.contains_key(id),
        after(t, event).accounts[id] != t.accounts[id],
    ensures
        after(t, event).accounts[id].revision == t.accounts[id].revision + 1,
{
}

/// An account that still stands at a revision is still configured as it was at that revision: a
/// period that is closed at the revision at which its meters were read records one configuration.
pub proof fn law_same_revision_is_same_configuration(t: Tables, events: Seq<Event>, id: Text)
    requires
        tables_ok(t),
        t.accounts.contains_key(id),
    ensures
        tables_ok(after_all(t, events)),
        after_all(t, events).accounts.contains_key(id),
        after_all(t, events).accounts[id].revision >= t.accounts[id].revision,
        after_all(t, events).accounts[id].revision == t.accounts[id].revision ==> after_all(
            t,
            events,
        ).accounts[id] == t.accounts[id],
    decreases events.len(),
{
    if events.len() > 0 {
        let u = after_all(t, events.drop_last());
        law_same_revision_is_same_configuration(t, events.drop_last(), id);
        law_events_keep_tables_consistent(u, events.last());
        law_accounts_stay(u, events.last(), id);
        if after(u, events.last()).accounts[id] != u.accounts[id] {
            law_configuration_changes_with_revision(u, events.last(), id);
        }
    }
}

/// Only an administrator's put touches accounts: no worker and no other operation does.
pub proof fn law_only_puts_touch_accounts(t: Tables, event: Event)
    requires
        event !is Put,
    ensures
        after(t, event).accounts == t.accounts,
{
}

/// A put that writes replaces everything that can be configured, all meter mappings included, and
/// what it answers is what is read afterwards.
pub proof fn law_put_replaces_everything(t: Tables, input: PutAccount, now: i128)
    requires
        tables_ok(t),
        !t.commands.contains_key(put_key(input)),
        put_outcome(t, input, now) is Ok,
    ensures
        ({
            let (u, view) = put_outcome(t, input, now)->Ok_0;
            let row = u.accounts[input.account_id@];
            &&& account_outcome(u, input.organization_id@, input.account_id@) is Ok
            &&& account_outcome(u, input.organization_id@, input.account_id@)->Ok_0 == view
            &&& row.revision == input.expected_revision + 1
            &&& row.scope_kind == input.scope_kind@
            &&& row.scope_id == input.scope_id@
            &&& row.subject == input.subject@
            &&& row.currency == input.currency@
            &&& row.status == input.status
            &&& row.meters == in_order::<MeterView>(models(input.meters@))
            &&& row.updated_at == now
        }),
{
}

/// The meters of every account stand in the order of their mapping ids.
pub open spec fn meters_ordered(t: Tables) -> bool {
    forall|id: Text| #[trigger]
        t.accounts.contains_key(id) ==> ordered::<MeterView>(t.accounts[id].meters)
}

/// The meters of every account stay in the order of their mapping ids.
pub proof fn law_meters_stay_in_order(t: Tables, event: Event)
    requires
        tables_ok(t),
        meters_ordered(t),
    ensures
        meters_ordered(after(t, event)),
{
    if let Event::Put { input, now } = event {
        law_rows_are_put_in_order::<MeterView>(models(input.meters@));
    }
}

/// A put touches no account but its own.
pub proof fn law_put_leaves_other_accounts(t: Tables, input: PutAccount, now: i128, other: Text)
    requires
        tables_ok(t),
        other != input.account_id@,
        t.accounts.contains_key(other),
    ensures
        after(t, Event::Put { input, now }).accounts.contains_key(other),
        after(t, Event::Put { input, now }).accounts[other] == t.accounts[other],
{
}

/// Of two writers that expect the same revision of an account only the first is served.
pub proof fn law_second_writer_conflicts(
    t: Tables,
    first: PutAccount,
    second: PutAccount,
    now: i128,
    later: i128,
)
    requires
        tables_ok(t),
        !t.commands.contains_key(put_key(first)),
        put_outcome(t, first, now) is Ok,
        put_key(second) != put_key(first),
        !t.commands.contains_key(put_key(second)),
        second.account_id@ == first.account_id@,
        second.organization_id@ == first.organization_id@,
        second.expected_revision == first.expected_revision,
    ensures
        ({
            let (u, _) = put_outcome(t, first, now)->Ok_0;
            put_outcome(u, second, later) is Err && put_outcome(u, second, later)->Err_0 == refused(
                DomainFailure::RevisionConflict,
            )
        }),
{
}

/// An account is never shown to another organization, nor written by it.
pub proof fn law_accounts_of_organizations_are_apart(
    t: Tables,
    id: Text,
    organization_id: Text,
    input: PutAccount,
    now: i128,
)
    requires
        t.accounts.contains_key(id),
        t.accounts[id].organization_id != organization_id,
        input.account_id@ == id,
        input.organization_id@ == organization_id,
        !t.commands.contains_key(put_key(input)),
    ensures
        account_outcome(t, organization_id, id) is Err,
        account_outcome(t, organization_id, id)->Err_0 == refused(DomainFailure::NotFound),
        put_outcome(t, input, now) is Err,
        put_outcome(t, input, now)->Err_0 == refused(DomainFailure::NotFound),
{
}

/// A put that writes answers, and leaves to be read, what was put, each field of it: the next
/// revision in decimal, the meters all of them and in the order of their mapping ids, and the
/// instants of the first put and of this one.
pub proof fn law_put_answers_what_was_put(t: Tables, input: PutAccount, now: i128)
    requires
        tables_ok(t),
        !t.commands.contains_key(put_key(input)),
        put_outcome(t, input, now) is Ok,
    ensures
        ({
            let (u, view) = put_outcome(t, input, now)->Ok_0;
            let put = models(input.meters@);
            let made = if t.accounts.contains_key(input.account_id@) {
                t.accounts[input.account_id@].created_at
            } else {
                now
            };
            &&& account_outcome(u, input.organization_id@, input.account_id@) == Ok::<
                AccountViewModel,
                StorageFailure,
            >(view)
            &&& view.organization_id == input.organization_id@
            &&& view.account_id == input.account_id@
            &&& view.scope_kind == input.scope_kind@
            &&& view.scope_id == input.scope_id@
            &&& view.subject == input.subject@
            &&& view.currency == input.currency@
            &&& view.status == input.status
            &&& view.revision == integer_text(input.expected_revision + 1)
            &&& view.created_at == rfc3339_text(made)
            &&& view.updated_at == rfc3339_text(now)
            &&& view.meters.len() == put.len()
            &&& view.meters.to_multiset() == put.to_multiset()
            &&& forall|i: int, j: int|
                0 <= i < j < view.meters.len() ==> !text_less(
                    (#[trigger] view.meters[j]).mapping_id,
                    (#[trigger] view.meters[i]).mapping_id,
                )
        }),
{
    let (u, view) = put_outcome(t, input, now)->Ok_0;
    law_account_is_shown_as_stored(u, input.organization_id@, input.account_id@);
    law_rows_are_put_in_order::<MeterView>(models(input.meters@));
    let sorted = in_order::<MeterView>(models(input.meters@));
    assert(view.meters == sorted);
    assert forall|i: int, j: int| 0 <= i < j < sorted.len() implies !text_less(
        (#[trigger] sorted[j]).mapping_id,
        (#[trigger] sorted[i]).mapping_id,
    ) by {}
}

/// A put that writes changes its account and keeps its answer, and touches nothing else.
pub proof fn law_put_touches_its_account_only(t: Tables, input: PutAccount, now: i128)
    requires
        tables_ok(t),
        !t.commands.contains_key(put_key(input)),
        put_outcome(t, input, now) is Ok,
    ensures
        ({
            let (u, view) = put_outcome(t, input, now)->Ok_0;
            let key = CommandKeyOf {
                caller: input.caller@,
                actor: input.actor@,
                operation: Operation::PutAccount,
                idempotency_key: input.idempotency_key@,
            };
            &&& u.periods == t.periods
            &&& forall|id: Text|
                id != input.account_id@ ==> (#[trigger] u.accounts.contains_key(id)
                    <==> t.accounts.contains_key(id))
            &&& forall|id: Text|
                id != input.account_id@ && #[trigger] t.accounts.contains_key(id)
                    ==> u.accounts[id] == t.accounts[id]
            &&& u.commands.contains_key(key)
            &&& u.commands[key].key == key
            &&& u.commands[key].request_hash == input.request_hash@
            &&& u.commands[key].response == ResponseModel::Account(view)
            &&& forall|other: CommandKeyModel|
                other != key ==> (#[trigger] u.commands.contains_key(other)
                    <==> t.commands.contains_key(other))
            &&& forall|other: CommandKeyModel|
                other != key && #[trigger] t.commands.contains_key(other) ==> u.commands[other]
                    == t.commands[other]
        }),
{
}

/// When a put that is not finished yet goes through: a new account for revision zero, an own one at
/// the expected revision; and why it does not go through else.
pub proof fn law_put_needs_the_expected_revision(t: Tables, input: PutAccount, now: i128)
    requires
        !t.commands.contains_key(put_key(input)),
    ensures
        ({
            let known = t.accounts.contains_key(input.account_id@);
            let current = t.accounts[input.account_id@];
            let own = current.organization_id == input.organization_id@;
            let outcome = put_outcome(t, input, now);
            let conflict = Err::<(Tables, AccountViewModel), StorageFailure>(
                StorageErrorOf::Domain(DomainFailure::RevisionConflict),
            );
            &&& !known && input.expected_revision != 0 ==> outcome == conflict
            &&& known && !own ==> outcome == Err::<(Tables, AccountViewModel), StorageFailure>(
                StorageErrorOf::Domain(DomainFailure::NotFound),
            )
            &&& known && own && current.revision != input.expected_revision ==> outcome == conflict
            &&& !known && input.expected_revision == 0 ==> (outcome is Ok <==> can_be_said(now))
            &&& known && own && current.revision == input.expected_revision && current.revision
                < i64::MAX ==> (outcome is Ok <==> can_be_said(now) && can_be_said(
                current.created_at,
            ))
            &&& known && own && current.revision == input.expected_revision && current.revision
                == i64::MAX ==> outcome is Err && outcome->Err_0 is Database
        }),
{
}

} // verus!
