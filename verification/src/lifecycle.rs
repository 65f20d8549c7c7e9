//! Getting ready: the owned schema, the database URL, and not being called before either is there.

use vstd::prelude::*;
use vstd::string::*;

use crate::error::{Reply, RuntimeFailure};
use crate::schema::{check_schema, schema_name_accepted, schema_name_message};
use crate::text::Text;

verus! {

/// `failure` is the failure of a plugin with this detail.
pub open spec fn fails_with<R>(failure: RuntimeFailure<R>, detail: Text) -> bool {
    failure matches RuntimeFailure::PluginFailure { detail: d } && d@ == detail
}

/// What the secret store replied, as the database URL or as a failure.
pub fn resolve_secret<R>(reference: &str, reply: Reply<String, R>) -> (r: Result<
    String,
    RuntimeFailure<R>,
>)
    ensures
        match reply {
            Reply::Answered(value) => r == Ok::<String, RuntimeFailure<R>>(value),
            Reply::Rejected => r is Err && fails_with(
                r->Err_0,
                "database URL secret `"@ + reference@ + "` was rejected"@,
            ),
            Reply::Failed(own) => r == Err::<String, RuntimeFailure<R>>(
                RuntimeFailure::Dependency(own),
            ),
        },
{
    match reply {
        Reply::Answered(value) => Ok(value),
        Reply::Rejected => Err(
            RuntimeFailure::PluginFailure {
                detail: "database URL secret `".to_owned().concat(reference).concat(
                    "` was rejected",
                ),
            },
        ),
        Reply::Failed(own) => Err(RuntimeFailure::Dependency(own)),
    }
}

/// Whether the plugin can be activated on the schema.
pub fn activate_schema<R>(schema: &str) -> (r: Result<(), RuntimeFailure<R>>)
    ensures
        match r {
            Ok(_) => schema_name_accepted(schema@),
            Err(failure) => !schema_name_accepted(schema@) && (
            failure matches RuntimeFailure::InvalidResolvedPlan { detail } && detail@
                == schema_name_message(schema@)),
        },
{
    match check_schema(schema) {
        Ok(_) => Ok(()),
        Err(detail) => Err(RuntimeFailure::InvalidResolvedPlan { detail }),
    }
}

/// What happens to the plugin: an activation, which prepares something or fails, or a deactivation.
pub enum LifecycleEvent<P> {
    Activated(P),
    ActivationFailed,
    Deactivated,
}

/// What is prepared after the event. A failed activation leaves what an earlier one has prepared.
pub open spec fn prepared_next<P>(state: Option<P>, event: LifecycleEvent<P>) -> Option<P> {
    match event {
        LifecycleEvent::Activated(value) => Some(value),
        LifecycleEvent::ActivationFailed => state,
        LifecycleEvent::Deactivated => None,
    }
}

/// What is prepared after one event and then another, and so on, nothing being prepared at first.
pub open spec fn prepared_after<P>(events: Seq<LifecycleEvent<P>>) -> Option<P>
    decreases events.len(),
{
    if events.len() == 0 {
        None
    } else {
        prepared_next(prepared_after(events.drop_last()), events.last())
    }
}

/// The event `i` is an activation that went through, and no deactivation has come behind it.
pub open spec fn still_active<P>(events: Seq<LifecycleEvent<P>>, i: int) -> bool {
    &&& 0 <= i < events.len()
    &&& events[i] is Activated
    &&& forall|j: int| i < j < events.len() ==> #[trigger] events[j] !is Deactivated
}

/// The plugin is prepared exactly when an activation has gone through and no deactivation has come
/// behind it, and then with what the last such activation has prepared.
pub proof fn law_prepared_exactly_while_active<P>(events: Seq<LifecycleEvent<P>>)
    ensures
        prepared_after(events) is Some <==> exists|i: int| #[trigger] still_active(events, i),
        forall|i: int|
            #[trigger] still_active(events, i) && (forall|j: int|
                i < j < events.len() ==> #[trigger] events[j] !is Activated) ==> prepared_after(
                events,
            ) == Some(events[i]->Activated_0),
    decreases events.len(),
{
    if events.len() > 0 {
        let front = events.drop_last();
        let last = events.len() - 1;
        law_prepared_exactly_while_active(front);
        assert forall|i: int| 0 <= i < last && events[last] !is Deactivated implies (
        #[trigger] still_active(front, i) <==> still_active(events, i)) by {
            if still_active(front, i) {
                assert forall|j: int| i < j < events.len() implies #[trigger] events[j]
                    !is Deactivated by {
                    assert(j < last ==> front[j] == events[j]);
                }
            }
            if still_active(events, i) {
                assert forall|j: int| i < j < front.len() implies #[trigger] front[j]
                    !is Deactivated by {
                    assert(front[j] == events[j]);
                }
            }
        }
        if events[last] is Activated {
            assert(still_active(events, last));
        }
        if prepared_after(events) is Some && events[last] !is Activated {
            let i = choose|i: int| #[trigger] still_active(front, i);
            assert(still_active(events, i));
        }
        assert forall|i: int| #[trigger] still_active(events, i) implies prepared_after(events)
            is Some by {
            if i < last {
                assert(events[last] !is Deactivated);
                assert(still_active(front, i));
            }
        }
        assert forall|i: int|
            #[trigger] still_active(events, i) && (forall|j: int|
                i < j < events.len() ==> #[trigger] events[j] !is Activated) implies prepared_after(
            events,
        ) == Some(events[i]->Activated_0) by {
            if i < last {
                assert(events[last] !is Deactivated && events[last] !is Activated);
                assert(still_active(front, i));
                assert forall|j: int| i < j < front.len() implies #[trigger] front[j]
                    !is Activated by {
                    assert(front[j] == events[j]);
                }
                assert(front[i] == events[i]);
            }
        }
    }
}

/// Takes in how an activation has ended.
pub fn activated<P, R>(state: &mut Option<P>, outcome: Result<P, RuntimeFailure<R>>) -> (r: Result<
    (),
    RuntimeFailure<R>,
>)
    ensures
        match outcome {
            Ok(value) => r is Ok && *final(state) == prepared_next(
                *old(state),
                LifecycleEvent::Activated(value),
            ),
            Err(failure) => r == Err::<(), RuntimeFailure<R>>(failure) && *final(state)
                == prepared_next(*old(state), LifecycleEvent::ActivationFailed),
        },
{
    match outcome {
        Ok(value) => {
            *state = Some(value);
            Ok(())
        },
        Err(failure) => Err(failure),
    }
}

/// Hands out what was prepared, to be given back; nothing is prepared from here on.
pub fn deactivated<P>(state: &mut Option<P>) -> (r: Option<P>)
    ensures
        r == *old(state),
        *final(state) == prepared_next(*old(state), LifecycleEvent::Deactivated),
{
    state.take()
}

/// What activation has prepared; an operation that comes before that fails.
pub fn prepared<P, R>(state: Option<P>) -> (r: Result<P, RuntimeFailure<R>>)
    ensures
        match state {
            Some(value) => r == Ok::<P, RuntimeFailure<R>>(value),
            None => r is Err && fails_with(r->Err_0, "Usage Billing Plugin is not prepared"@),
        },
{
    match state {
        Some(value) => Ok(value),
        None => Err(
            RuntimeFailure::PluginFailure {
                detail: "Usage Billing Plugin is not prepared".to_owned(),
            },
        ),
    }
}

} // verus!
