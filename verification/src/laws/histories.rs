//! Everything that holds of the stored state at once, from the beginning and through any history.

use vstd::prelude::*;

use crate::laws::accounts::{law_meters_stay_in_order, meters_ordered};
use crate::laws::commands::{
    answers_fit, closes_shown, law_answers_fit_their_operations,
    law_kept_closes_match_their_periods,
};
use crate::laws::deliveries::{conclusive, law_leases_go_with_attempts, leases_fit};
use crate::laws::periods::{
    law_lines_stay_in_order, law_period_status_follows_lines,
    law_period_statuses_follow_through_histories, law_periods_keep_their_accounts,
    law_periods_stay_apart, lines_ordered, periods_apart, periods_belong, statuses_follow,
};
use crate::laws::{after, after_all, law_events_keep_tables_consistent, Event};
use crate::model::{
    AccountModel, CommandKeyModel, CommandModel, DeliveryStatus, PeriodModel, PeriodStatus,
};
use crate::tables::{line_at, tables_ok, Tables};
use crate::text::Text;

verus! {

/// Rows stand under their keys and delivery ids are stored once; periods belong to accounts of
/// their organization, never overlap, and say of themselves what their lines say; a line is under a
/// lease exactly while it is in flight; lines and meters stand in the order of their mapping ids;
/// kept answers fit their commands; and what is kept of a close is the snapshot that is stored.
pub open spec fn sound(t: Tables) -> bool {
    &&& tables_ok(t)
    &&& periods_belong(t)
    &&& periods_apart(t)
    &&& statuses_follow(t)
    &&& leases_fit(t)
    &&& lines_ordered(t)
    &&& meters_ordered(t)
    &&& answers_fit(t)
    &&& closes_shown(t)
}

/// Nothing is stored yet.
pub open spec fn no_rows() -> Tables {
    Tables {
        accounts: Map::<Text, AccountModel>::empty(),
        periods: Map::<Text, PeriodModel>::empty(),
        commands: Map::<CommandKeyModel, CommandModel>::empty(),
    }
}

/// A state without rows is sound.
pub proof fn law_beginning_is_sound()
    ensures
        sound(no_rows()),
{
    let t = no_rows();
    assert forall|id: Text, i: int| !#[trigger] line_at(t, id, i) by {}
}

/// No event makes a sound state unsound.
pub proof fn law_events_keep_the_state_sound(t: Tables, event: Event)
    requires
        sound(t),
        conclusive(event),
    ensures
        sound(after(t, event)),
{
    law_events_keep_tables_consistent(t, event);
    law_periods_keep_their_accounts(t, event);
    law_periods_stay_apart(t, event);
    law_period_status_follows_lines(t, event);
    law_leases_go_with_attempts(t, event);
    law_lines_stay_in_order(t, event);
    law_meters_stay_in_order(t, event);
    law_answers_fit_their_operations(t, event);
    law_kept_closes_match_their_periods(t, event);
}

/// The state is sound after any history.
pub proof fn law_histories_are_sound(events: Seq<Event>)
    requires
        forall|i: int| 0 <= i < events.len() ==> conclusive(#[trigger] events[i]),
    ensures
        sound(after_all(no_rows(), events)),
    decreases events.len(),
{
    if events.len() == 0 {
        law_beginning_is_sound();
    } else {
        let front = events.drop_last();
        assert forall|i: int| 0 <= i < front.len() implies conclusive(#[trigger] front[i]) by {
            assert(front[i] == events[i]);
        }
        law_histories_are_sound(front);
        assert(conclusive(events[events.len() - 1]));
        law_events_keep_the_state_sound(after_all(no_rows(), front), events.last());
    }
}

/// After any history a period is unknown if one of its lines is; else failed if one of them is;
/// else pending if one of them is not delivered, those in flight among them; else, and without any
/// lines, delivered.
pub proof fn law_periods_tell_of_their_lines(events: Seq<Event>, id: Text)
    requires
        after_all(no_rows(), events).periods.contains_key(id),
    ensures
        ({
            let period = after_all(no_rows(), events).periods[id];
            let lines = period.lines;
            let unknown = exists|i: int|
                0 <= i < lines.len() && (#[trigger] lines[i]).status == DeliveryStatus::Unknown;
            let failed = exists|i: int|
                0 <= i < lines.len() && (#[trigger] lines[i]).status == DeliveryStatus::Failed;
            let delivered = forall|i: int|
                0 <= i < lines.len() ==> (#[trigger] lines[i]).status == DeliveryStatus::Delivered;
            &&& period.status == PeriodStatus::Unknown <==> unknown
            &&& period.status == PeriodStatus::Failed <==> !unknown && failed
            &&& period.status == PeriodStatus::Pending <==> !unknown && !failed && !delivered
            &&& period.status == PeriodStatus::Delivered <==> delivered
        }),
{
    law_beginning_is_sound();
    law_period_statuses_follow_through_histories(no_rows(), events);
}

} // verus!
