//! Deliveries: one attempt at a time, a bounded number of them, and nothing uncertain left unsaid.

use vstd::prelude::*;

use crate::error::{DomainFailure, StorageFailure};
use crate::input::{Completion, ResolveDelivery};
use crate::instant::{rfc3339_text, FIRST_SHOWN, LAST_SHOWN};
use crate::laws::records::{can_be_said, law_delivery_is_shown_as_stored};
use crate::laws::{
    after, after_all, law_events_keep_tables_consistent, law_lines_change_only_by_rule,
    lemma_claim_place, lemma_given_up_lines, Event,
};
use crate::model::{
    optional_text, CommandKeyModel, CommandKeyOf, DeliveryClaimModel, DeliveryStatus, LineModel,
    Operation, PeriodStatus, Resolution, ResponseModel,
};
use crate::order::text_less;
use crate::reconcile::{completes, tells, PublishMeterEventRequest, SinkOutcome};
use crate::tables::{
    anything_to_claim, claim_outcome, claimable, complete_outcome, delivery_outcome, delivery_place,
    delivery_stored, holds_attempt, holds_status, lease_end, lemma_next_exists,
    lemma_next_is_unique, line, line_at, next_to_claim, open_to_claim, refused, resolve_key,
    resolve_outcome, resolved, status_of, tables_given_up, tables_ok, Tables,
};
use crate::text::Text;

verus! {

/// The line is of the same delivery and records the same usage as before.
pub open spec fn keeps_its_record(old_line: LineModel, new_line: LineModel) -> bool {
    &&& new_line.delivery_id == old_line.delivery_id
    &&& new_line.mapping_id == old_line.mapping_id
    &&& new_line.source_meter == old_line.source_meter
    &&& new_line.sink_meter == old_line.sink_meter
    &&& new_line.quantity == old_line.quantity
    &&& new_line.usage_revision == old_line.usage_revision
    &&& new_line.unit_price_minor == old_line.unit_price_minor
    &&& new_line.amount_minor == old_line.amount_minor
}

/// The line waits to be taken on: nobody holds it, it has attempts left, and it is pending or
/// under a lease that has run out.
pub open spec fn waits(row: LineModel, held: Set<Text>, max_attempts: i32, now: i128) -> bool {
    &&& !held.contains(row.delivery_id)
    &&& row.attempts < max_attempts
    &&& row.status == DeliveryStatus::Pending || (row.status == DeliveryStatus::InFlight && (
    row.lease_expires_at matches Some(expiry) && expiry <= now))
}

// Claims.

/// Where anything can be taken on, exactly one line is next: the one touched longest ago, and of
/// several touched at one instant the one with the least delivery id.
pub proof fn law_one_line_is_next(
    t: Tables,
    held: Set<Text>,
    max_attempts: i32,
    now: i128,
) -> (place: (Text, int))
    requires
        tables_ok(t),
        anything_to_claim(t, held, max_attempts, now),
    ensures
        next_to_claim(t, held, max_attempts, now, place.0, place.1),
        forall|id: Text, i: int| #[trigger]
            next_to_claim(t, held, max_attempts, now, id, i) ==> id == place.0 && i == place.1,
{
    lemma_next_exists(t, held, max_attempts, now);
    let (id, i) = choose|id: Text, i: int| #[trigger]
        next_to_claim(t, held, max_attempts, now, id, i);
    assert forall|other: Text, j: int| #[trigger]
        next_to_claim(t, held, max_attempts, now, other, j) implies other == id && j == i by {
        lemma_next_is_unique(t, held, max_attempts, now, other, j, id, i);
    }
    (id, i)
}

/// A claim opens a new attempt at one open line: the next in number, within the bound, under a
/// lease of the worker that ends when its seconds are over. What it hands out is what the period
/// recorded and where the account says the usage belongs.
pub proof fn law_claim_opens_a_new_attempt(
    t: Tables,
    worker_id: Text,
    lease_seconds: i64,
    max_attempts: i32,
    held: Set<Text>,
    now: i128,
) -> (place: (Text, int))
    requires
        tables_ok(t),
        claim_outcome(t, worker_id, lease_seconds, max_attempts, held, now) is Ok,
        claim_outcome(t, worker_id, lease_seconds, max_attempts, held, now)->Ok_0.1 is Some,
    ensures
        ({
            let (u, taken) = claim_outcome(
                t,
                worker_id,
                lease_seconds,
                max_attempts,
                held,
                now,
            )->Ok_0;
            let claim = taken->0;
            let (id, i) = place;
            let old_line = line(t, id, i);
            let new_line = line(u, id, i);
            let account = t.accounts[t.periods[id].account_id];
            &&& next_to_claim(t, held, max_attempts, now, id, i)
            &&& line_at(t, id, i)
            &&& line_at(u, id, i)
            &&& t.accounts.contains_key(t.periods[id].account_id)
            &&& new_line.lease_expires_at == Some((now + lease_seconds * 1_000_000_000) as i128)
            &&& i128::MIN <= now + lease_seconds * 1_000_000_000 <= i128::MAX
            &&& new_line.updated_at == now
            &&& new_line.failure_code is None
            &&& new_line.provider_reference == old_line.provider_reference
            &&& keeps_its_record(old_line, new_line)
            &&& claim.occurred_at == rfc3339_text(t.periods[id].period_end)
            &&& new_line.status == DeliveryStatus::InFlight
            &&& new_line.lease_owner == Some(worker_id)
            &&& new_line.lease_expires_at matches Some(expiry) && expiry == lease_end(
                now,
                lease_seconds,
            )
            &&& new_line.attempts == old_line.attempts + 1
            &&& new_line.attempts <= max_attempts
            &&& claim.attempt == new_line.attempts
            &&& claim.delivery_id == old_line.delivery_id
            &&& claim.period_id == id
            &&& claim.quantity == old_line.quantity
            &&& claim.sink_meter == old_line.sink_meter
            &&& claim.scope_kind == account.scope_kind
            &&& claim.scope_id == account.scope_id
            &&& claim.subject == account.subject
        }),
{
    let place = lemma_claim_place(t, worker_id, lease_seconds, max_attempts, held, now);
    lemma_given_up_lines(t, max_attempts, now);
    assert(line_at(t, place.0, place.1));
    let g = tables_given_up(t, max_attempts, now);
    assert(line(g, place.0, place.1) == line(t, place.0, place.1));
    place
}

/// The line that a claim takes on is one that waits, and of those that wait the one touched
/// longest ago; of several touched at one instant it is the one with the least delivery id.
pub proof fn law_claim_takes_the_line_that_waits_longest(
    t: Tables,
    worker_id: Text,
    lease_seconds: i64,
    max_attempts: i32,
    held: Set<Text>,
    now: i128,
) -> (place: (Text, int))
    requires
        tables_ok(t),
        claim_outcome(t, worker_id, lease_seconds, max_attempts, held, now) is Ok,
        claim_outcome(t, worker_id, lease_seconds, max_attempts, held, now)->Ok_0.1 is Some,
    ensures
        ({
            let (id, i) = place;
            let first = line(t, id, i);
            let claim = claim_outcome(
                t,
                worker_id,
                lease_seconds,
                max_attempts,
                held,
                now,
            )->Ok_0.1->0;
            &&& line_at(t, id, i)
            &&& claim.delivery_id == first.delivery_id
            &&& claim.period_id == id
            &&& waits(first, held, max_attempts, now)
            &&& forall|other: Text, j: int| #[trigger]
                line_at(t, other, j) && waits(line(t, other, j), held, max_attempts, now) ==> {
                    let second = line(t, other, j);
                    ||| other == id && j == i
                    ||| first.updated_at < second.updated_at
                    ||| first.updated_at == second.updated_at && text_less(
                        first.delivery_id,
                        second.delivery_id,
                    )
                }
        }),
{
    let (id, i) = law_claim_opens_a_new_attempt(
        t,
        worker_id,
        lease_seconds,
        max_attempts,
        held,
        now,
    );
    assert forall|other: Text, j: int| #[trigger]
        line_at(t, other, j) && waits(line(t, other, j), held, max_attempts, now) implies (other
        == id && j == i) || line(t, id, i).updated_at < line(t, other, j).updated_at || (line(
        t,
        id,
        i,
    ).updated_at == line(t, other, j).updated_at && text_less(
        line(t, id, i).delivery_id,
        line(t, other, j).delivery_id,
    )) by {
        assert(open_to_claim(t, held, max_attempts, now, other, j));
    }
    (id, i)
}

/// A claim comes back empty exactly when nothing waits to be taken on.
pub proof fn law_claim_is_empty_only_where_nothing_waits(
    t: Tables,
    worker_id: Text,
    lease_seconds: i64,
    max_attempts: i32,
    held: Set<Text>,
    now: i128,
)
    requires
        tables_ok(t),
    ensures
        ({
            let outcome = claim_outcome(t, worker_id, lease_seconds, max_attempts, held, now);
            let waiting = exists|id: Text, i: int| #[trigger]
                line_at(t, id, i) && waits(line(t, id, i), held, max_attempts, now);
            &&& !waiting ==> outcome is Ok && outcome->Ok_0.1 is None
            &&& waiting && outcome is Ok ==> outcome->Ok_0.1 is Some
            &&& waiting && (forall|id: Text| #[trigger]
                t.periods.contains_key(id) ==> t.accounts.contains_key(t.periods[id].account_id)
                    && can_be_said(t.periods[id].period_end)) && i128::MIN <= now + lease_seconds
                * 1_000_000_000 <= i128::MAX ==> outcome is Ok
        }),
{
    if exists|id: Text, i: int| #[trigger]
        line_at(t, id, i) && waits(line(t, id, i), held, max_attempts, now) {
        let (id, i) = choose|id: Text, i: int| #[trigger]
            line_at(t, id, i) && waits(line(t, id, i), held, max_attempts, now);
        assert(open_to_claim(t, held, max_attempts, now, id, i));
        let place = lemma_claim_place(t, worker_id, lease_seconds, max_attempts, held, now);
        lemma_given_up_lines(t, max_attempts, now);
        assert(line_at(t, place.0, place.1));
    } else if anything_to_claim(t, held, max_attempts, now) {
        let (id, i) = choose|id: Text, i: int| #[trigger]
            open_to_claim(t, held, max_attempts, now, id, i);
        assert(line_at(t, id, i) && waits(line(t, id, i), held, max_attempts, now));
    }
}

/// A claim touches the line that it takes on and the pending lines without attempts left, and
/// nothing else.
pub proof fn law_claim_leaves_the_rest_alone(
    t: Tables,
    worker_id: Text,
    lease_seconds: i64,
    max_attempts: i32,
    held: Set<Text>,
    now: i128,
    id: Text,
    i: int,
)
    requires
        tables_ok(t),
        line_at(t, id, i),
        claim_outcome(t, worker_id, lease_seconds, max_attempts, held, now) is Ok,
        !(line(t, id, i).status == DeliveryStatus::Pending && line(t, id, i).attempts
            >= max_attempts),
        claim_outcome(t, worker_id, lease_seconds, max_attempts, held, now)->Ok_0.1 matches Some(
            claim,
        ) ==> claim.delivery_id != line(t, id, i).delivery_id,
    ensures
        ({
            let (u, _) = claim_outcome(
                t,
                worker_id,
                lease_seconds,
                max_attempts,
                held,
                now,
            )->Ok_0;
            &&& line_at(u, id, i)
            &&& line(u, id, i) == line(t, id, i)
            &&& u.accounts == t.accounts
            &&& u.commands == t.commands
        }),
{
    lemma_given_up_lines(t, max_attempts, now);
    if anything_to_claim(t, held, max_attempts, now) {
        let place = law_claim_opens_a_new_attempt(
            t,
            worker_id,
            lease_seconds,
            max_attempts,
            held,
            now,
        );
        let other = lemma_claim_place(t, worker_id, lease_seconds, max_attempts, held, now);
        lemma_next_is_unique(
            t,
            held,
            max_attempts,
            now,
            place.0,
            place.1,
            other.0,
            other.1,
        );
    }
}

/// A line under a lease that has not run out is left alone by every claim.
pub proof fn law_live_lease_is_left_alone(t: Tables, event: Event, id: Text, i: int)
    requires
        tables_ok(t),
        line_at(t, id, i),
        line(t, id, i).status == DeliveryStatus::InFlight,
        event matches Event::Claim { now, .. } && (line(t, id, i).lease_expires_at matches Some(
            expiry,
        ) ==> expiry > now),
    ensures
        line_at(after(t, event), id, i),
        line(after(t, event), id, i) == line(t, id, i),
{
    law_lines_change_only_by_rule(t, event);
}

/// A line that another worker is taking on at this moment is not taken on a second time.
pub proof fn law_held_lines_are_passed_over(t: Tables, event: Event, id: Text, i: int)
    requires
        tables_ok(t),
        line_at(t, id, i),
        event matches Event::Claim { held, .. } && held.contains(line(t, id, i).delivery_id),
    ensures
        line_at(after(t, event), id, i),
        line(after(t, event), id, i).attempts == line(t, id, i).attempts,
        line(after(t, event), id, i).lease_owner == line(t, id, i).lease_owner || line(
            after(t, event),
            id,
            i,
        ).lease_owner is None,
{
    law_lines_change_only_by_rule(t, event);
}

/// A pending line without attempts left is given up by the next claim that goes through.
pub proof fn law_spent_lines_are_given_up(
    t: Tables,
    worker_id: Text,
    lease_seconds: i64,
    max_attempts: i32,
    held: Set<Text>,
    now: i128,
    id: Text,
    i: int,
)
    requires
        tables_ok(t),
        line_at(t, id, i),
        line(t, id, i).status == DeliveryStatus::Pending,
        line(t, id, i).attempts >= max_attempts,
        claim_outcome(t, worker_id, lease_seconds, max_attempts, held, now) is Ok,
    ensures
        ({
            let (u, _) = claim_outcome(
                t,
                worker_id,
                lease_seconds,
                max_attempts,
                held,
                now,
            )->Ok_0;
            &&& line_at(u, id, i)
            &&& line(u, id, i).status == DeliveryStatus::Failed
            &&& line(u, id, i).failure_code == Some("attempts_exhausted"@)
            &&& line(u, id, i).lease_owner is None
            &&& line(u, id, i).lease_expires_at is None
            &&& line(u, id, i).attempts == line(t, id, i).attempts
            &&& line(u, id, i).provider_reference == line(t, id, i).provider_reference
            &&& line(u, id, i).updated_at == now
            &&& keeps_its_record(line(t, id, i), line(u, id, i))
        }),
{
    lemma_given_up_lines(t, max_attempts, now);
    if anything_to_claim(t, held, max_attempts, now) {
        let place = lemma_claim_place(t, worker_id, lease_seconds, max_attempts, held, now);
        assert(line_at(t, place.0, place.1));
    }
}

// Attempts.

/// The number of attempts at a line never falls.
pub proof fn law_attempts_never_fall(t: Tables, event: Event, id: Text, i: int)
    requires
        tables_ok(t),
        line_at(t, id, i),
    ensures
        line_at(after(t, event), id, i),
        line(after(t, event), id, i).delivery_id == line(t, id, i).delivery_id,
        line(after(t, event), id, i).attempts >= line(t, id, i).attempts,
{
    law_lines_change_only_by_rule(t, event);
}

/// The number of attempts at a line never falls, through any history.
pub proof fn law_attempts_never_fall_in_histories(t: Tables, events: Seq<Event>, id: Text, i: int)
    requires
        tables_ok(t),
        line_at(t, id, i),
    ensures
        tables_ok(after_all(t, events)),
        line_at(after_all(t, events), id, i),
        line(after_all(t, events), id, i).delivery_id == line(t, id, i).delivery_id,
        line(after_all(t, events), id, i).attempts >= line(t, id, i).attempts,
    decreases events.len(),
{
    if events.len() > 0 {
        let u = after_all(t, events.drop_last());
        law_attempts_never_fall_in_histories(t, events.drop_last(), id, i);
        law_events_keep_tables_consistent(u, events.last());
        law_attempts_never_fall(u, events.last(), id, i);
    }
}

/// No line has been tried more often than `max_attempts` times.
pub open spec fn attempts_within(t: Tables, max_attempts: i32) -> bool {
    forall|id: Text, i: int| #[trigger]
        line_at(t, id, i) ==> line(t, id, i).attempts <= max_attempts
}

/// Claims that keep to a bound never exceed it.
pub proof fn law_attempts_are_bounded(t: Tables, event: Event, max_attempts: i32)
    requires
        tables_ok(t),
        0 <= max_attempts,
        attempts_within(t, max_attempts),
        event matches Event::Claim { max_attempts: bound, .. } ==> bound <= max_attempts,
    ensures
        attempts_within(after(t, event), max_attempts),
{
    let u = after(t, event);
    law_lines_change_only_by_rule(t, event);
    assert forall|id: Text, i: int| #[trigger] line_at(u, id, i) implies line(u, id, i).attempts
        <= max_attempts by {
        if line_at(t, id, i) {
        } else if t.periods.contains_key(id) {
            assert(u.periods[id].lines.len() == t.periods[id].lines.len());
        } else {
            match event {
                Event::Claim { worker_id, lease_seconds, max_attempts: bound, held, now } => {
                    if anything_to_claim(t, held, bound, now) {
                        let place = lemma_claim_place(
                            t,
                            worker_id,
                            lease_seconds,
                            bound,
                            held,
                            now,
                        );
                        assert(line_at(t, place.0, place.1));
                    }
                },
                Event::Complete { input, now } => {
                    if delivery_stored(t, input.delivery_id@) {
                        let place = delivery_place(t, input.delivery_id@);
                        assert(line_at(t, place.0, place.1));
                    }
                },
                Event::Resolve { input, now } => {
                    if delivery_stored(t, input.delivery_id@) {
                        let place = delivery_place(t, input.delivery_id@);
                        assert(line_at(t, place.0, place.1));
                    }
                },
                _ => {},
            }
        }
    }
}

// Completions.

/// The place of a stored line is found by its delivery id.
pub(crate) proof fn lemma_place(t: Tables, id: Text, i: int)
    requires
        tables_ok(t),
        line_at(t, id, i),
    ensures
        delivery_stored(t, line(t, id, i).delivery_id),
        delivery_place(t, line(t, id, i).delivery_id) == (id, i),
{
    let place = delivery_place(t, line(t, id, i).delivery_id);
    assert(line_at(t, place.0, place.1));
}

/// A completion goes through exactly when the worker holds the line in this very attempt.
pub proof fn law_only_the_present_attempt_completes(
    t: Tables,
    input: Completion,
    now: i128,
    id: Text,
    i: int,
)
    requires
        tables_ok(t),
        line_at(t, id, i),
        line(t, id, i).delivery_id == input.delivery_id@,
    ensures
        complete_outcome(t, input, now) is Ok <==> holds_attempt(
            line(t, id, i),
            input.worker_id@,
            input.attempt,
        ),
        complete_outcome(t, input, now) is Ok <==> {
            &&& line(t, id, i).status == DeliveryStatus::InFlight
            &&& line(t, id, i).lease_owner == Some(input.worker_id@)
            &&& line(t, id, i).attempts == input.attempt
        },
        complete_outcome(t, input, now) is Err ==> complete_outcome(t, input, now)->Err_0
            == refused(DomainFailure::DeliveryNotFound),
{
    lemma_place(t, id, i);
}

/// Once a delivery has been taken on anew, no worker that held an earlier attempt can complete it
/// any more, whatever happens afterwards.
pub proof fn law_newer_claim_shuts_out_older_attempts(
    t: Tables,
    worker_id: Text,
    lease_seconds: i64,
    max_attempts: i32,
    held: Set<Text>,
    now: i128,
    events: Seq<Event>,
    input: Completion,
    later: i128,
)
    requires
        tables_ok(t),
        claim_outcome(t, worker_id, lease_seconds, max_attempts, held, now) is Ok,
        claim_outcome(t, worker_id, lease_seconds, max_attempts, held, now)->Ok_0.1 is Some,
        input.delivery_id@ == claim_outcome(
            t,
            worker_id,
            lease_seconds,
            max_attempts,
            held,
            now,
        )->Ok_0.1->0.delivery_id,
        input.attempt < claim_outcome(
            t,
            worker_id,
            lease_seconds,
            max_attempts,
            held,
            now,
        )->Ok_0.1->0.attempt,
    ensures
        ({
            let (u, _) = claim_outcome(
                t,
                worker_id,
                lease_seconds,
                max_attempts,
                held,
                now,
            )->Ok_0;
            let v = after_all(u, events);
            complete_outcome(v, input, later) is Err && complete_outcome(v, input, later)->Err_0
                == refused(DomainFailure::DeliveryNotFound)
        }),
{
    let event = Event::Claim { worker_id, lease_seconds, max_attempts, held, now };
    let u = after(t, event);
    let (id, i) = law_claim_opens_a_new_attempt(
        t,
        worker_id,
        lease_seconds,
        max_attempts,
        held,
        now,
    );
    law_events_keep_tables_consistent(t, event);
    law_attempts_never_fall(t, event, id, i);
    law_attempts_never_fall_in_histories(u, events, id, i);
    law_only_the_present_attempt_completes(after_all(u, events), input, later, id, i);
}

/// The worker that took a delivery on can complete it, and the line and its period then say how it
/// ended.
pub proof fn law_completion_settles_the_line(
    t: Tables,
    input: Completion,
    now: i128,
    id: Text,
    i: int,
)
    requires
        tables_ok(t),
        line_at(t, id, i),
        line(t, id, i).delivery_id == input.delivery_id@,
        holds_attempt(line(t, id, i), input.worker_id@, input.attempt),
    ensures
        complete_outcome(t, input, now) is Ok,
        ({
            let u = complete_outcome(t, input, now)->Ok_0;
            &&& line_at(u, id, i)
            &&& line(u, id, i).status == input.status
            &&& line(u, id, i).provider_reference == optional_text(input.provider_reference)
            &&& line(u, id, i).failure_code == optional_text(input.failure_code)
            &&& line(u, id, i).lease_owner is None
            &&& line(u, id, i).lease_expires_at is None
            &&& line(u, id, i).updated_at == now
            &&& line(u, id, i).attempts == line(t, id, i).attempts
            &&& keeps_its_record(line(t, id, i), line(u, id, i))
            &&& u.periods[id].status == status_of(u.periods[id].lines)
            &&& u.accounts == t.accounts
            &&& u.commands == t.commands
            &&& forall|other: Text, j: int|
                #[trigger] line_at(t, other, j) && !(other == id && j == i) ==> line_at(u, other, j)
                    && line(u, other, j) == line(t, other, j)
        }),
{
    lemma_place(t, id, i);
}

/// What a worker completes a delivery with is what an inspection shows from then on: the state,
/// the provider's reference, the failure code, the attempt and the instant.
pub proof fn law_completed_delivery_is_inspected(
    t: Tables,
    input: Completion,
    now: i128,
    id: Text,
    i: int,
    organization_id: Text,
)
    requires
        tables_ok(t),
        line_at(t, id, i),
        line(t, id, i).delivery_id == input.delivery_id@,
        complete_outcome(t, input, now) is Ok,
        t.periods[id].organization_id == organization_id,
        can_be_said(now),
    ensures
        ({
            let u = complete_outcome(t, input, now)->Ok_0;
            &&& delivery_outcome(u, organization_id, input.delivery_id@) matches Ok(view)
            &&& view.delivery_id == input.delivery_id@
            &&& view.period_id == id
            &&& view.status == input.status
            &&& view.provider_reference == optional_text(input.provider_reference)
            &&& view.failure_code == optional_text(input.failure_code)
            &&& view.attempts == input.attempt
            &&& view.updated_at == rfc3339_text(now)
        }),
{
    let event = Event::Complete { input, now };
    law_only_the_present_attempt_completes(t, input, now, id, i);
    law_completion_settles_the_line(t, input, now, id, i);
    law_events_keep_tables_consistent(t, event);
    let u = complete_outcome(t, input, now)->Ok_0;
    assert(u == after(t, event));
    law_delivery_is_shown_as_stored(u, organization_id, id, i);
}

/// A failure of the provider itself leaves the delivery, and with it the period, in the unknown
/// state before the worker hears of it.
pub proof fn law_provider_failure_becomes_unknown<R>(
    t: Tables,
    input: Completion,
    now: i128,
    id: Text,
    i: int,
    claim: DeliveryClaimModel,
    worker_id: Text,
    own: R,
)
    requires
        tables_ok(t),
        completes(input, claim, worker_id, SinkOutcome::Failed(own)),
        line_at(t, id, i),
        line(t, id, i).delivery_id == claim.delivery_id,
        holds_attempt(line(t, id, i), worker_id, claim.attempt),
    ensures
        complete_outcome(t, input, now) is Ok,
        ({
            let u = complete_outcome(t, input, now)->Ok_0;
            &&& line(u, id, i).status == DeliveryStatus::Unknown
            &&& line(u, id, i).failure_code == Some("sink_runtime_failure"@)
            &&& u.periods[id].status == PeriodStatus::Unknown
        }),
{
    law_completion_settles_the_line(t, input, now, id, i);
    let u = complete_outcome(t, input, now)->Ok_0;
    let lines = u.periods[id].lines;
    assert(lines[i] == line(u, id, i));
    assert(holds_status(lines, DeliveryStatus::Unknown));
}

// Settled lines.

/// A delivered line never changes again.
pub proof fn law_delivered_is_final(t: Tables, event: Event, id: Text, i: int)
    requires
        tables_ok(t),
        line_at(t, id, i),
        line(t, id, i).status == DeliveryStatus::Delivered,
    ensures
        line_at(after(t, event), id, i),
        line(after(t, event), id, i) == line(t, id, i),
{
    law_lines_change_only_by_rule(t, event);
}

/// A delivery that failed, or whose effect is unknown, stays so until an administrator resolves
/// it.
pub proof fn law_uncertain_lines_wait_for_resolution(t: Tables, event: Event, id: Text, i: int)
    requires
        tables_ok(t),
        line_at(t, id, i),
        line(t, id, i).status == DeliveryStatus::Failed || line(t, id, i).status
            == DeliveryStatus::Unknown,
        event matches Event::Resolve { input, .. } ==> input.delivery_id@ != line(
            t,
            id,
            i,
        ).delivery_id,
    ensures
        line_at(after(t, event), id, i),
        line(after(t, event), id, i) == line(t, id, i),
{
    law_lines_change_only_by_rule(t, event);
}

/// A completion says how the attempt ended.
pub open spec fn conclusive(event: Event) -> bool {
    event matches Event::Complete { input, .. } ==> input.status == DeliveryStatus::Delivered
        || input.status == DeliveryStatus::Failed || input.status == DeliveryStatus::Unknown
}

/// A line is under a lease exactly while it is in flight.
pub open spec fn leases_fit(t: Tables) -> bool {
    forall|id: Text, i: int| #[trigger]
        line_at(t, id, i) ==> {
            let row = line(t, id, i);
            &&& row.status == DeliveryStatus::InFlight <==> row.lease_owner is Some
            &&& row.lease_owner is Some <==> row.lease_expires_at is Some
        }
}

/// Lines go on being under a lease exactly while they are in flight.
pub proof fn law_leases_go_with_attempts(t: Tables, event: Event)
    requires
        tables_ok(t),
        leases_fit(t),
        conclusive(event),
    ensures
        leases_fit(after(t, event)),
{
    let u = after(t, event);
    law_lines_change_only_by_rule(t, event);
    assert forall|id: Text, i: int| #[trigger] line_at(u, id, i) implies (line(u, id, i).status
        == DeliveryStatus::InFlight <==> line(u, id, i).lease_owner is Some) && (line(
        u,
        id,
        i,
    ).lease_owner is Some <==> line(u, id, i).lease_expires_at is Some) by {
        if line_at(t, id, i) {
        } else if t.periods.contains_key(id) {
            assert(u.periods[id].lines.len() == t.periods[id].lines.len());
        } else {
            match event {
                Event::Claim { worker_id, lease_seconds, max_attempts, held, now } => {
                    if anything_to_claim(t, held, max_attempts, now) {
                        let place = lemma_claim_place(
                            t,
                            worker_id,
                            lease_seconds,
                            max_attempts,
                            held,
                            now,
                        );
                        assert(line_at(t, place.0, place.1));
                    }
                },
                Event::Complete { input, now } => {
                    if delivery_stored(t, input.delivery_id@) {
                        let place = delivery_place(t, input.delivery_id@);
                        assert(line_at(t, place.0, place.1));
                    }
                },
                Event::Resolve { input, now } => {
                    if delivery_stored(t, input.delivery_id@) {
                        let place = delivery_place(t, input.delivery_id@);
                        assert(line_at(t, place.0, place.1));
                    }
                },
                _ => {},
            }
        }
    }
}

// Resolutions.

/// A delivery of the organization can be resolved exactly when it failed or its effect is unknown,
/// and as delivered only with the provider's reference; provided that its instant can be shown.
pub proof fn law_resolution_needs_an_uncertain_line(
    t: Tables,
    input: ResolveDelivery,
    now: i128,
    id: Text,
    i: int,
)
    requires
        tables_ok(t),
        line_at(t, id, i),
        line(t, id, i).delivery_id == input.delivery_id@,
        t.periods[id].organization_id == input.organization_id@,
        !t.commands.contains_key(resolve_key(input)),
        FIRST_SHOWN <= now <= LAST_SHOWN,
    ensures
        resolve_outcome(t, input, now) is Ok <==> {
            &&& line(t, id, i).status == DeliveryStatus::Failed || line(t, id, i).status
                == DeliveryStatus::Unknown
            &&& input.resolution == Resolution::Delivered ==> input.provider_reference is Some
        },
        resolve_outcome(t, input, now) is Err ==> resolve_outcome(t, input, now)->Err_0 == refused(
            DomainFailure::InvalidResolution,
        ),
{
    lemma_place(t, id, i);
}

/// A resolution that writes puts the line into the decided state, and what it answers is what is
/// read afterwards.
pub proof fn law_resolution_settles_the_line(
    t: Tables,
    input: ResolveDelivery,
    now: i128,
    id: Text,
    i: int,
)
    requires
        tables_ok(t),
        line_at(t, id, i),
        line(t, id, i).delivery_id == input.delivery_id@,
        !t.commands.contains_key(resolve_key(input)),
        resolve_outcome(t, input, now) is Ok,
    ensures
        ({
            let (u, view) = resolve_outcome(t, input, now)->Ok_0;
            &&& line_at(u, id, i)
            &&& Some(line(u, id, i)) == resolved(line(t, id, i), input, now)
            &&& match input.resolution {
                Resolution::Delivered => {
                    &&& line(u, id, i).status == DeliveryStatus::Delivered
                    &&& line(u, id, i).provider_reference is Some
                    &&& line(u, id, i).provider_reference == optional_text(input.provider_reference)
                    &&& line(u, id, i).failure_code is None
                },
                Resolution::Failed => {
                    &&& line(u, id, i).status == DeliveryStatus::Failed
                    &&& line(u, id, i).provider_reference == optional_text(input.provider_reference)
                    &&& line(u, id, i).failure_code == Some(input.reason@)
                },
                Resolution::Retry => {
                    &&& line(u, id, i).status == DeliveryStatus::Pending
                    &&& line(u, id, i).provider_reference is None
                    &&& line(u, id, i).failure_code is None
                },
            }
            &&& line(u, id, i).lease_owner is None
            &&& line(u, id, i).lease_expires_at is None
            &&& line(u, id, i).updated_at == now
            &&& line(u, id, i).attempts == line(t, id, i).attempts
            &&& keeps_its_record(line(t, id, i), line(u, id, i))
            &&& view.organization_id == t.periods[id].organization_id
            &&& view.account_id == t.periods[id].account_id
            &&& view.period_id == id
            &&& view.delivery_id == input.delivery_id@
            &&& view.mapping_id == line(t, id, i).mapping_id
            &&& view.status == line(u, id, i).status
            &&& view.attempts == line(t, id, i).attempts
            &&& view.provider_reference == line(u, id, i).provider_reference
            &&& view.failure_code == line(u, id, i).failure_code
            &&& view.updated_at == rfc3339_text(now)
            &&& delivery_outcome(u, input.organization_id@, input.delivery_id@) is Ok
            &&& delivery_outcome(u, input.organization_id@, input.delivery_id@)->Ok_0 == view
        }),
{
    lemma_place(t, id, i);
    let event = Event::Resolve { input, now };
    law_events_keep_tables_consistent(t, event);
    let u = after(t, event);
    assert(line_at(u, id, i));
    lemma_place(u, id, i);
    law_delivery_is_shown_as_stored(u, input.organization_id@, id, i);
}

/// A resolution that writes settles its line, follows it with the status of the period, and keeps
/// its answer; it touches nothing else.
pub proof fn law_resolution_touches_its_line_only(
    t: Tables,
    input: ResolveDelivery,
    now: i128,
    id: Text,
    i: int,
)
    requires
        tables_ok(t),
        line_at(t, id, i),
        line(t, id, i).delivery_id == input.delivery_id@,
        !t.commands.contains_key(resolve_key(input)),
        resolve_outcome(t, input, now) is Ok,
    ensures
        ({
            let (u, view) = resolve_outcome(t, input, now)->Ok_0;
            let key = CommandKeyOf {
                caller: input.caller@,
                actor: input.actor@,
                operation: Operation::ResolveDelivery,
                idempotency_key: input.idempotency_key@,
            };
            &&& u.accounts == t.accounts
            &&& forall|other: Text, j: int|
                #[trigger] line_at(t, other, j) && !(other == id && j == i) ==> line_at(u, other, j)
                    && line(u, other, j) == line(t, other, j)
            &&& u.commands.contains_key(key)
            &&& u.commands[key].key == key
            &&& u.commands[key].request_hash == input.request_hash@
            &&& u.commands[key].response == ResponseModel::Delivery(view)
            &&& forall|other: CommandKeyModel|
                other != key ==> (#[trigger] u.commands.contains_key(other)
                    <==> t.commands.contains_key(other))
            &&& forall|other: CommandKeyModel|
                other != key && #[trigger] t.commands.contains_key(other) ==> u.commands[other]
                    == t.commands[other]
        }),
{
    lemma_place(t, id, i);
}

/// A retried delivery is open to be taken on again while it has attempts left.
pub proof fn law_retried_delivery_is_open_again(
    t: Tables,
    input: ResolveDelivery,
    now: i128,
    id: Text,
    i: int,
    max_attempts: i32,
    later: i128,
)
    requires
        tables_ok(t),
        line_at(t, id, i),
        line(t, id, i).delivery_id == input.delivery_id@,
        !t.commands.contains_key(resolve_key(input)),
        input.resolution == Resolution::Retry,
        resolve_outcome(t, input, now) is Ok,
        line(t, id, i).attempts < max_attempts,
    ensures
        ({
            let (u, _) = resolve_outcome(t, input, now)->Ok_0;
            claimable(line(u, id, i), max_attempts, later) && waits(
                line(u, id, i),
                Set::empty(),
                max_attempts,
                later,
            )
        }),
{
    law_resolution_settles_the_line(t, input, now, id, i);
}

/// A delivery is never shown to another organization, nor resolved by it.
pub proof fn law_deliveries_of_organizations_are_apart(
    t: Tables,
    id: Text,
    i: int,
    input: ResolveDelivery,
    now: i128,
)
    requires
        tables_ok(t),
        line_at(t, id, i),
        line(t, id, i).delivery_id == input.delivery_id@,
        t.periods[id].organization_id != input.organization_id@,
        !t.commands.contains_key(resolve_key(input)),
    ensures
        delivery_outcome(t, input.organization_id@, input.delivery_id@) is Err,
        delivery_outcome(t, input.organization_id@, input.delivery_id@)->Err_0 == refused(
            DomainFailure::DeliveryNotFound,
        ),
        resolve_outcome(t, input, now) is Err,
        resolve_outcome(t, input, now)->Err_0 == refused(DomainFailure::DeliveryNotFound),
{
    lemma_place(t, id, i);
}

/// A delivery that no line has can neither be completed nor resolved.
pub proof fn law_unstored_delivery_is_not_settled(
    t: Tables,
    completion: Completion,
    resolution: ResolveDelivery,
    now: i128,
)
    requires
        forall|id: Text, i: int| #[trigger]
            line_at(t, id, i) ==> line(t, id, i).delivery_id != completion.delivery_id@ && line(
                t,
                id,
                i,
            ).delivery_id != resolution.delivery_id@,
        !t.commands.contains_key(resolve_key(resolution)),
    ensures
        complete_outcome(t, completion, now) is Err,
        complete_outcome(t, completion, now)->Err_0 == StorageFailure::Domain(
            DomainFailure::DeliveryNotFound,
        ),
        resolve_outcome(t, resolution, now) is Err,
        resolve_outcome(t, resolution, now)->Err_0 == StorageFailure::Domain(
            DomainFailure::DeliveryNotFound,
        ),
{
}

/// What reconciliation is for: once the provider has taken the event and the outcome is stored,
/// the delivery is inspected as delivered, with the provider's reference.
pub proof fn law_published_delivery_is_inspected<R>(
    t: Tables,
    input: Completion,
    now: i128,
    id: Text,
    i: int,
    claim: DeliveryClaimModel,
    worker_id: Text,
    provider_reference: String,
)
    requires
        tables_ok(t),
        completes(input, claim, worker_id, SinkOutcome::<R>::Published { provider_reference }),
        line_at(t, id, i),
        line(t, id, i).delivery_id == claim.delivery_id,
        line(t, id, i).status == DeliveryStatus::InFlight,
        line(t, id, i).lease_owner == Some(worker_id),
        line(t, id, i).attempts == claim.attempt,
        can_be_said(now),
    ensures
        complete_outcome(t, input, now) is Ok,
        ({
            let u = complete_outcome(t, input, now)->Ok_0;
            &&& delivery_outcome(u, t.periods[id].organization_id, claim.delivery_id) matches Ok(
                view,
            )
            &&& view.status == DeliveryStatus::Delivered
            &&& view.provider_reference == Some(provider_reference@)
            &&& view.failure_code is None
            &&& view.attempts == claim.attempt
        }),
{
    law_only_the_present_attempt_completes(t, input, now, id, i);
    law_completed_delivery_is_inspected(t, input, now, id, i, t.periods[id].organization_id);
}

/// What the provider is told of a delivery is what its period recorded: the quantity of the line,
/// on the line's meter of the provider, under the line's delivery id, as of the end of the period,
/// and for the scope and the subject of the account that the period is of.
pub proof fn law_provider_is_told_what_was_recorded(
    t: Tables,
    worker_id: Text,
    lease_seconds: i64,
    max_attempts: i32,
    held: Set<Text>,
    now: i128,
    request: PublishMeterEventRequest,
    id: Text,
    i: int,
)
    requires
        tables_ok(t),
        claim_outcome(t, worker_id, lease_seconds, max_attempts, held, now) is Ok,
        claim_outcome(t, worker_id, lease_seconds, max_attempts, held, now)->Ok_0.1 is Some,
        tells(
            request,
            claim_outcome(t, worker_id, lease_seconds, max_attempts, held, now)->Ok_0.1->0,
        ),
        line_at(t, id, i),
        line(t, id, i).delivery_id == request.delivery_id@,
    ensures
        ({
            let period = t.periods[id];
            let account = t.accounts[period.account_id];
            &&& request.quantity@ == period.lines[i].quantity
            &&& request.meter@ == period.lines[i].sink_meter
            &&& request.occurred_at@ == rfc3339_text(period.period_end)
            &&& t.accounts.contains_key(period.account_id)
            &&& request.scope_kind@ == account.scope_kind
            &&& request.scope_id@ == account.scope_id
            &&& request.subject@ == account.subject
        }),
{
    let place = law_claim_opens_a_new_attempt(
        t,
        worker_id,
        lease_seconds,
        max_attempts,
        held,
        now,
    );
    assert(line_at(t, place.0, place.1));
    assert(place.0 == id && place.1 == i);
}

} // verus!
