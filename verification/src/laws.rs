//! What holds of the stored state whatever happens to it.

pub mod accounts;
pub mod commands;
pub mod deliveries;
pub mod histories;
pub mod pages;
pub mod periods;
pub mod records;
pub mod slices;

use vstd::prelude::*;

use crate::input::{ClosePeriod, Completion, PutAccount, ResolveDelivery};
use crate::model::{optional_text, LineModel};
use crate::tables::{
    anything_to_claim, claim_of, claim_outcome, claimable, claimed, close_outcome, close_row,
    complete_outcome, delivery_place, delivery_stored, given_up, holds_attempt, lease_end,
    lemma_new_period, lemma_next_exists, lemma_same_delivery_ids, lemma_same_periods, line, line_at,
    next_to_claim, put_outcome, released, resolve_outcome, resolved, spent, tables_given_up,
    tables_ok, Tables,
};
use crate::text::Text;

verus! {

/// Something that happens to the stored state, at an instant.
#[allow(inconsistent_fields)]
pub enum Event {
    Put { input: PutAccount, now: i128 },
    Close { input: ClosePeriod, now: i128 },
    Claim { worker_id: Text, lease_seconds: i64, max_attempts: i32, held: Set<Text>, now: i128 },
    Complete { input: Completion, now: i128 },
    Resolve { input: ResolveDelivery, now: i128 },
}

/// The state after the event; one that fails changes nothing.
pub open spec fn after(t: Tables, event: Event) -> Tables {
    match event {
        Event::Put { input, now } => match put_outcome(t, input, now) {
            Ok((u, _)) => u,
            Err(_) => t,
        },
        Event::Close { input, now } => match close_outcome(t, input, now) {
            Ok((u, _)) => u,
            Err(_) => t,
        },
        Event::Claim { worker_id, lease_seconds, max_attempts, held, now } => match claim_outcome(
            t,
            worker_id,
            lease_seconds,
            max_attempts,
            held,
            now,
        ) {
            Ok((u, _)) => u,
            Err(_) => t,
        },
        Event::Complete { input, now } => match complete_outcome(t, input, now) {
            Ok(u) => u,
            Err(_) => t,
        },
        Event::Resolve { input, now } => match resolve_outcome(t, input, now) {
            Ok((u, _)) => u,
            Err(_) => t,
        },
    }
}

/// The state after one event and then another, and so on.
pub open spec fn after_all(t: Tables, events: Seq<Event>) -> Tables
    decreases events.len(),
{
    if events.len() == 0 {
        t
    } else {
        after(after_all(t, events.drop_last()), events.last())
    }
}

/// How one event may change one line: a spent line is given up, an open one is taken on, the
/// present attempt is completed, or an administrator resolves it.
pub open spec fn line_follows(old_line: LineModel, new_line: LineModel, event: Event) -> bool {
    ||| new_line == old_line
    ||| match event {
        Event::Claim { worker_id, lease_seconds, max_attempts, held, now } => {
            ||| spent(old_line, max_attempts) && new_line == given_up(old_line, max_attempts, now)
            ||| claimable(old_line, max_attempts, now) && !held.contains(old_line.delivery_id)
                && new_line == claimed(
                old_line,
                worker_id,
                lease_end(now, lease_seconds) as i128,
                now,
            )
        },
        Event::Complete { input, now } => {
            &&& old_line.delivery_id == input.delivery_id@
            &&& holds_attempt(old_line, input.worker_id@, input.attempt)
            &&& new_line == released(
                old_line,
                input.status,
                optional_text(input.provider_reference),
                optional_text(input.failure_code),
                now,
            )
        },
        Event::Resolve { input, now } => {
            &&& old_line.delivery_id == input.delivery_id@
            &&& resolved(old_line, input, now) == Some(new_line)
        },
        _ => false,
    }
}

/// The lines of the state with spent lines given up.
pub proof fn lemma_given_up_lines(t: Tables, max_attempts: i32, now: i128)
    ensures
        forall|id: Text, i: int| #[trigger]
            line_at(t, id, i) <==> line_at(tables_given_up(t, max_attempts, now), id, i),
        forall|id: Text, i: int| #[trigger]
            line_at(t, id, i) ==> line(tables_given_up(t, max_attempts, now), id, i) == given_up(
                line(t, id, i),
                max_attempts,
                now,
            ),
        forall|id: Text| #[trigger]
            t.periods.contains_key(id) ==> tables_given_up(
                t,
                max_attempts,
                now,
            ).periods[id].lines.len() == t.periods[id].lines.len(),
{
    let u = tables_given_up(t, max_attempts, now);
    assert forall|id: Text, i: int| #[trigger] line_at(t, id, i) implies line(u, id, i) == given_up(
        line(t, id, i),
        max_attempts,
        now,
    ) by {
        let period = t.periods[id];
        if !spent(period.lines[i], max_attempts) {
            assert(given_up(period.lines[i], max_attempts, now) == period.lines[i]);
        }
    }
}

/// Where the line that a claim takes on stands.
pub proof fn lemma_claim_place(
    t: Tables,
    worker_id: Text,
    lease_seconds: i64,
    max_attempts: i32,
    held: Set<Text>,
    now: i128,
) -> (place: (Text, int))
    requires
        tables_ok(t),
        anything_to_claim(t, held, max_attempts, now),
    ensures
        next_to_claim(t, held, max_attempts, now, place.0, place.1),
        claim_outcome(t, worker_id, lease_seconds, max_attempts, held, now) == claim_of(
            t,
            worker_id,
            lease_seconds,
            max_attempts,
            now,
            place.0,
            place.1,
        ),
{
    lemma_next_exists(t, held, max_attempts, now);
    let (id, i) = choose|id: Text, i: int| #[trigger]
        next_to_claim(t, held, max_attempts, now, id, i);
    (id, i)
}

/// Every line of the state is still there after the event, at its place, and has changed by the
/// rules of `line_follows` or not at all.
pub proof fn law_lines_change_only_by_rule(t: Tables, event: Event)
    requires
        tables_ok(t),
    ensures
        forall|id: Text, i: int| #[trigger]
            line_at(t, id, i) ==> line_at(after(t, event), id, i) && line_follows(
                line(t, id, i),
                line(after(t, event), id, i),
                event,
            ),
        forall|id: Text| #[trigger]
            t.periods.contains_key(id) ==> after(t, event).periods.contains_key(id) && after(
                t,
                event,
            ).periods[id].lines.len() == t.periods[id].lines.len(),
{
    let u = after(t, event);
    match event {
        Event::Put { input, now } => {},
        Event::Close { input, now } => {},
        Event::Claim { worker_id, lease_seconds, max_attempts, held, now } => {
            let g = tables_given_up(t, max_attempts, now);
            lemma_given_up_lines(t, max_attempts, now);
            if anything_to_claim(t, held, max_attempts, now) {
                let place = lemma_claim_place(
                    t,
                    worker_id,
                    lease_seconds,
                    max_attempts,
                    held,
                    now,
                );
                let (id, i) = place;
                if u != t {
                    let expiry = lease_end(now, lease_seconds) as i128;
                    assert(line_at(t, id, i));
                    assert(line(u, id, i) == claimed(line(t, id, i), worker_id, expiry, now));
                    assert forall|a: Text, j: int| #[trigger]
                        line_at(t, a, j) && !(a == id && j == i) implies line(u, a, j) == line(
                        g,
                        a,
                        j,
                    ) by {}
                }
            }
        },
        Event::Complete { input, now } => {
            if delivery_stored(t, input.delivery_id@) {
                let (id, i) = delivery_place(t, input.delivery_id@);
                assert(line_at(t, id, i) && line(t, id, i).delivery_id == input.delivery_id@);
            }
        },
        Event::Resolve { input, now } => {
            if delivery_stored(t, input.delivery_id@) {
                let (id, i) = delivery_place(t, input.delivery_id@);
                assert(line_at(t, id, i) && line(t, id, i).delivery_id == input.delivery_id@);
            }
        },
    }
}

/// No event makes the state inconsistent: rows stay under their keys, and no delivery id is ever
/// stored twice.
pub proof fn law_events_keep_tables_consistent(t: Tables, event: Event)
    requires
        tables_ok(t),
    ensures
        tables_ok(after(t, event)),
{
    let u = after(t, event);
    law_lines_change_only_by_rule(t, event);
    match event {
        Event::Put { input, now } => {
            lemma_same_periods(t, u);
        },
        Event::Close { input, now } => {
            if u.periods != t.periods {
                let row = close_row(t, input, now)->Ok_0;
                let grown = Tables { periods: t.periods.insert(row.period_id, row), ..t };
                lemma_new_period(t, row);
                lemma_same_periods(grown, u);
            } else {
                lemma_same_periods(t, u);
            }
        },
        Event::Claim { worker_id, lease_seconds, max_attempts, held, now } => {
            lemma_given_up_lines(t, max_attempts, now);
            if anything_to_claim(t, held, max_attempts, now) {
                let place = lemma_claim_place(
                    t,
                    worker_id,
                    lease_seconds,
                    max_attempts,
                    held,
                    now,
                );
                assert(line_at(t, place.0, place.1));
            }
            assert(u.periods.dom() =~= t.periods.dom());
            lemma_same_delivery_ids(t, u);
        },
        Event::Complete { input, now } => {
            if delivery_stored(t, input.delivery_id@) {
                let (id, i) = delivery_place(t, input.delivery_id@);
                assert(line_at(t, id, i));
            }
            assert(u.periods.dom() =~= t.periods.dom());
            lemma_same_delivery_ids(t, u);
        },
        Event::Resolve { input, now } => {
            if delivery_stored(t, input.delivery_id@) {
                let (id, i) = delivery_place(t, input.delivery_id@);
                assert(line_at(t, id, i));
            }
            assert(u.periods.dom() =~= t.periods.dom());
            lemma_same_delivery_ids(t, u);
        },
    }
}

/// The state stays consistent through any history.
pub proof fn law_histories_keep_tables_consistent(t: Tables, events: Seq<Event>)
    requires
        tables_ok(t),
    ensures
        tables_ok(after_all(t, events)),
    decreases events.len(),
{
    if events.len() > 0 {
        law_histories_keep_tables_consistent(t, events.drop_last());
        law_events_keep_tables_consistent(after_all(t, events.drop_last()), events.last());
    }
}

} // verus!
