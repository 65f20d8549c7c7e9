//! Idempotency: a finished command is answered again, and is never carried out again.

use vstd::prelude::*;

use crate::digest::sha256_digest;
use crate::error::{DomainFailure, StorageFailure};
use crate::input::{ClosePeriod, PutAccount, ResolveDelivery};
use crate::laws::periods::{
    law_snapshots_are_immutable, lemma_snapshot_shown, same_snapshot_shown,
};
use crate::laws::{after, after_all, law_events_keep_tables_consistent, Event};
use crate::model::{CommandKeyModel, Operation, PeriodViewModel, ResponseModel, ResponseOf};
use crate::requests::ClosePeriodRequest;
use crate::snapshot::{close_input, requested_close_key, SnapshotModel};
use crate::tables::{
    close_key, close_outcome, period_outcome, put_key, put_outcome, refused, replayed, resolve_key,
    resolve_outcome, tables_ok, Tables,
};
use crate::text::Text;

verus! {

/// A finished command is kept: no event removes it or changes its answer.
pub proof fn law_finished_commands_are_kept(t: Tables, event: Event, key: CommandKeyModel)
    requires
        t.commands.contains_key(key),
    ensures
        after(t, event).commands.contains_key(key),
        after(t, event).commands[key] == t.commands[key],
{
}

/// A finished command is kept through any history.
pub proof fn law_finished_commands_outlive_histories(
    t: Tables,
    events: Seq<Event>,
    key: CommandKeyModel,
)
    requires
        t.commands.contains_key(key),
    ensures
        after_all(t, events).commands.contains_key(key),
        after_all(t, events).commands[key] == t.commands[key],
    decreases events.len(),
{
    if events.len() > 0 {
        law_finished_commands_outlive_histories(t, events.drop_last(), key);
        law_finished_commands_are_kept(after_all(t, events.drop_last()), events.last(), key);
    }
}

/// A put that went through is answered alike ever after, whatever has happened since, and then
/// changes nothing. For that a repetition needs the same key and the same fingerprint, and nothing
/// else of it counts.
pub proof fn law_put_is_idempotent(
    t: Tables,
    input: PutAccount,
    now: i128,
    events: Seq<Event>,
    again: PutAccount,
    later: i128,
)
    requires
        put_outcome(t, input, now) is Ok,
        put_key(again) == put_key(input),
        again.request_hash@ == input.request_hash@,
    ensures
        ({
            let (u, view) = put_outcome(t, input, now)->Ok_0;
            let v = after_all(u, events);
            put_outcome(v, again, later) is Ok && put_outcome(v, again, later)->Ok_0 == (v, view)
        }),
{
    let (u, view) = put_outcome(t, input, now)->Ok_0;
    law_finished_commands_outlive_histories(u, events, put_key(input));
}

/// A close that went through is answered alike ever after, whatever has happened since, and then
/// changes nothing. For that a repetition needs the same key and the same fingerprint, and nothing
/// else of it counts.
pub proof fn law_close_is_idempotent(
    t: Tables,
    input: ClosePeriod,
    now: i128,
    events: Seq<Event>,
    again: ClosePeriod,
    later: i128,
)
    requires
        close_outcome(t, input, now) is Ok,
        close_key(again) == close_key(input),
        again.request_hash@ == input.request_hash@,
    ensures
        ({
            let (u, view) = close_outcome(t, input, now)->Ok_0;
            let v = after_all(u, events);
            close_outcome(v, again, later) is Ok && close_outcome(v, again, later)->Ok_0 == (
                v,
                view,
            )
        }),
{
    let (u, view) = close_outcome(t, input, now)->Ok_0;
    law_finished_commands_outlive_histories(u, events, close_key(input));
}

/// A resolution that went through is answered alike ever after, whatever has happened since, and
/// then changes nothing. For that a repetition needs the same key and the same fingerprint, and
/// nothing else of it counts.
pub proof fn law_resolution_is_idempotent(
    t: Tables,
    input: ResolveDelivery,
    now: i128,
    events: Seq<Event>,
    again: ResolveDelivery,
    later: i128,
)
    requires
        resolve_outcome(t, input, now) is Ok,
        resolve_key(again) == resolve_key(input),
        again.request_hash@ == input.request_hash@,
    ensures
        ({
            let (u, view) = resolve_outcome(t, input, now)->Ok_0;
            let v = after_all(u, events);
            resolve_outcome(v, again, later) is Ok && resolve_outcome(v, again, later)->Ok_0 == (
                v,
                view,
            )
        }),
{
    let (u, view) = resolve_outcome(t, input, now)->Ok_0;
    law_finished_commands_outlive_histories(u, events, resolve_key(input));
}

/// The answer of a close that went through is found under its key ever after, whatever has happened
/// since: to the account, to its revision or to anything else.
pub proof fn law_finished_close_is_found(
    t: Tables,
    input: ClosePeriod,
    now: i128,
    events: Seq<Event>,
)
    requires
        close_outcome(t, input, now) is Ok,
    ensures
        ({
            let (u, view) = close_outcome(t, input, now)->Ok_0;
            replayed(after_all(u, events), close_key(input), input.request_hash@) == Ok::<
                Option<ResponseModel>,
                StorageFailure,
            >(Some(ResponseOf::Period(view)))
        }),
{
    let (u, view) = close_outcome(t, input, now)->Ok_0;
    law_finished_commands_outlive_histories(u, events, close_key(input));
}

/// The same request by the same caller and actor, repeated at any later time, finds the answer that
/// it was given: it looks under the key, and with the fingerprint, that its close was finished
/// with.
pub proof fn law_repeated_close_request_is_answered(
    t: Tables,
    request: ClosePeriodRequest,
    snapshot: SnapshotModel,
    caller: Text,
    actor: Text,
    wire: Seq<u8>,
    input: ClosePeriod,
    now: i128,
    events: Seq<Event>,
)
    requires
        snapshot.idempotency_key == request.idempotency_key@,
        close_input(input, snapshot, caller, actor, wire),
        close_outcome(t, input, now) is Ok,
    ensures
        ({
            let (u, view) = close_outcome(t, input, now)->Ok_0;
            replayed(
                after_all(u, events),
                requested_close_key(request, caller, actor),
                sha256_digest(wire),
            ) == Ok::<Option<ResponseModel>, StorageFailure>(Some(ResponseOf::Period(view)))
        }),
{
    law_finished_close_is_found(t, input, now, events);
}

/// The key of a finished put cannot be used for a different request.
pub proof fn law_put_key_is_not_reused(t: Tables, input: PutAccount, now: i128)
    requires
        t.commands.contains_key(put_key(input)),
        t.commands[put_key(input)].request_hash != input.request_hash@,
    ensures
        put_outcome(t, input, now) is Err,
        put_outcome(t, input, now)->Err_0 == refused(DomainFailure::IdempotencyConflict),
{
}

/// The key of a finished close cannot be used for a different request.
pub proof fn law_close_key_is_not_reused(t: Tables, input: ClosePeriod, now: i128)
    requires
        t.commands.contains_key(close_key(input)),
        t.commands[close_key(input)].request_hash != input.request_hash@,
    ensures
        close_outcome(t, input, now) is Err,
        close_outcome(t, input, now)->Err_0 == refused(DomainFailure::IdempotencyConflict),
{
}

/// The key of a finished resolution cannot be used for a different request.
pub proof fn law_resolution_key_is_not_reused(t: Tables, input: ResolveDelivery, now: i128)
    requires
        t.commands.contains_key(resolve_key(input)),
        t.commands[resolve_key(input)].request_hash != input.request_hash@,
    ensures
        resolve_outcome(t, input, now) is Err,
        resolve_outcome(t, input, now)->Err_0 == refused(DomainFailure::IdempotencyConflict),
{
}

/// The same idempotency key is free for every other caller, actor and operation.
pub proof fn law_command_keys_are_apart(
    put: PutAccount,
    close: ClosePeriod,
    resolve: ResolveDelivery,
)
    ensures
        put_key(put) != close_key(close),
        close_key(close) != resolve_key(resolve),
        put_key(put) != resolve_key(resolve),
{
}

/// The kept answer of every command is one that its operation gives.
pub open spec fn answers_fit(t: Tables) -> bool {
    forall|key: CommandKeyModel| #[trigger]
        t.commands.contains_key(key) ==> match key.operation {
            Operation::PutAccount => t.commands[key].response is Account,
            Operation::ClosePeriod => t.commands[key].response is Period,
            Operation::ResolveDelivery => t.commands[key].response is Delivery,
        }
}

/// Kept answers go on being such as their operations give.
pub proof fn law_answers_fit_their_operations(t: Tables, event: Event)
    requires
        answers_fit(t),
    ensures
        answers_fit(after(t, event)),
{
}

/// The period of the view can be read, and is the snapshot that the view shows.
pub open spec fn still_shown(t: Tables, view: PeriodViewModel) -> bool {
    period_outcome(t, view.organization_id, view.period_id) matches Ok(read) && same_snapshot_shown(
        view,
        read,
    )
}

/// The period of every kept close can be read, and is the snapshot that the kept answer shows.
pub open spec fn closes_shown(t: Tables) -> bool {
    forall|key: CommandKeyModel| #[trigger]
        t.commands.contains_key(key) ==> match t.commands[key].response {
            ResponseOf::Period(view) => still_shown(t, view),
            _ => true,
        }
}

/// What is kept of a close goes on matching what is stored.
pub proof fn law_kept_closes_match_their_periods(t: Tables, event: Event)
    requires
        tables_ok(t),
        closes_shown(t),
    ensures
        closes_shown(after(t, event)),
{
    let u = after(t, event);
    assert forall|key: CommandKeyModel| #[trigger] u.commands.contains_key(key) implies (
    match u.commands[key].response {
        ResponseOf::Period(view) => still_shown(u, view),
        _ => true,
    }) by {
        if t.commands.contains_key(key) {
            law_finished_commands_are_kept(t, event, key);
            if let ResponseOf::Period(view) = t.commands[key].response {
                law_snapshots_are_immutable(t, event, view.period_id);
                lemma_snapshot_shown(t.periods[view.period_id], u.periods[view.period_id]);
            }
        }
    }
}

/// What is kept of a close matches what is stored through any history.
pub proof fn law_kept_closes_match_through_histories(t: Tables, events: Seq<Event>)
    requires
        tables_ok(t),
        closes_shown(t),
    ensures
        tables_ok(after_all(t, events)),
        closes_shown(after_all(t, events)),
    decreases events.len(),
{
    if events.len() > 0 {
        let u = after_all(t, events.drop_last());
        law_kept_closes_match_through_histories(t, events.drop_last());
        law_events_keep_tables_consistent(u, events.last());
        law_kept_closes_match_their_periods(u, events.last());
    }
}

/// What a close answers, be it the first time or a repetition, is the snapshot that is read at any
/// later time; only how far its deliveries have come may differ.
pub proof fn law_closed_period_is_read_ever_after(
    t: Tables,
    input: ClosePeriod,
    now: i128,
    events: Seq<Event>,
)
    requires
        tables_ok(t),
        closes_shown(t),
        close_outcome(t, input, now) is Ok,
    ensures
        ({
            let (u, view) = close_outcome(t, input, now)->Ok_0;
            still_shown(after_all(u, events), view)
        }),
{
    let event = Event::Close { input, now };
    let (u, view) = close_outcome(t, input, now)->Ok_0;
    assert(after(t, event) == u);
    law_events_keep_tables_consistent(t, event);
    law_kept_closes_match_their_periods(t, event);
    law_kept_closes_match_through_histories(u, events);
    law_finished_commands_outlive_histories(u, events, close_key(input));
}

/// A kept answer can always be given again.
pub proof fn law_kept_answers_can_be_given(
    t: Tables,
    put: PutAccount,
    close: ClosePeriod,
    resolve: ResolveDelivery,
    now: i128,
)
    requires
        answers_fit(t),
    ensures
        put_outcome(t, put, now) is Err ==> put_outcome(t, put, now)->Err_0 !is Serialization,
        close_outcome(t, close, now) is Err ==> close_outcome(t, close, now)->Err_0
            !is Serialization,
        resolve_outcome(t, resolve, now) is Err ==> resolve_outcome(t, resolve, now)->Err_0
            !is Serialization,
{
}

/// Two commands of one operation are kept under one key exactly when the caller, the actor and the
/// idempotency key are the same.
pub proof fn law_keys_are_of_caller_actor_and_idempotency_key(
    put: PutAccount,
    other_put: PutAccount,
    close: ClosePeriod,
    other_close: ClosePeriod,
    resolve: ResolveDelivery,
    other_resolve: ResolveDelivery,
)
    ensures
        put_key(put) == put_key(other_put) <==> put.caller@ == other_put.caller@ && put.actor@
            == other_put.actor@ && put.idempotency_key@ == other_put.idempotency_key@,
        close_key(close) == close_key(other_close) <==> close.caller@ == other_close.caller@
            && close.actor@ == other_close.actor@ && close.idempotency_key@
            == other_close.idempotency_key@,
        resolve_key(resolve) == resolve_key(other_resolve) <==> resolve.caller@
            == other_resolve.caller@ && resolve.actor@ == other_resolve.actor@
            && resolve.idempotency_key@ == other_resolve.idempotency_key@,
{
}

/// What is found under a key: nothing where nothing is kept; the kept answer where the fingerprint
/// is that of the kept request; and a conflict where it is not.
pub proof fn law_what_is_kept_is_found(
    t: Tables,
    key: CommandKeyModel,
    request_hash: Seq<u8>,
)
    ensures
        replayed(t, key, request_hash) matches Ok(None) <==> !t.commands.contains_key(key),
        t.commands.contains_key(key) && t.commands[key].request_hash == request_hash ==> replayed(
            t,
            key,
            request_hash,
        ) == Ok::<Option<ResponseModel>, StorageFailure>(Some(t.commands[key].response)),
        t.commands.contains_key(key) && t.commands[key].request_hash != request_hash ==> replayed(
            t,
            key,
            request_hash,
        ) == Err::<Option<ResponseModel>, StorageFailure>(
            StorageFailure::Domain(DomainFailure::IdempotencyConflict),
        ),
{
}

} // verus!
