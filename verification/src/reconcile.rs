//! Reconciliation: a worker takes on one delivery, the provider is told, the outcome is settled.
//!
//! Whatever the provider says, or fails to say, is stored before the worker hears of it.

use vstd::prelude::*;
use vstd::string::*;

use crate::authorize::{allowed_caller, caller_allowed};
use crate::error::{
    is_plugin_failure, storage_message, storage_runtime, BillingError, PluginError, RuntimeFailure,
    StorageError,
};
use crate::input::Completion;
use crate::model::{models, optional_text, DeliveryClaim, DeliveryClaimModel, DeliveryStatus};
use crate::text::{id_accepted, same_text, text_accepted, valid_id, Text};

verus! {

#[derive(Debug, PartialEq, Eq)]
pub struct ReconcileNextRequest {
    pub worker_id: String,
}

#[derive(Clone, Copy, Debug, PartialEq, Eq, Structural)]
pub enum ReconcileNextResponseStatus {
    Idle,
    Delivered,
    Failed,
    Unknown,
}

#[derive(Debug, PartialEq, Eq)]
pub struct ReconcileNextResponse {
    pub delivery_id: Option<String>,
    pub period_id: Option<String>,
    pub status: ReconcileNextResponseStatus,
}

/// What the provider is told of a delivery.
#[derive(Debug, PartialEq, Eq)]
pub struct PublishMeterEventRequest {
    pub delivery_id: String,
    pub scope_kind: String,
    pub scope_id: String,
    pub subject: String,
    pub meter: String,
    pub quantity: String,
    pub occurred_at: String,
}

/// The errors that a provider declares.
#[derive(Clone, Copy, Debug, PartialEq, Eq, Structural)]
pub enum PublishMeterEventError {
    AccountNotFound,
    EffectUnknown,
    Forbidden,
    IdempotencyConflict,
    InvalidEvent,
    MeterNotConfigured,
    /// An error that only a later version of the provider's role names.
    Unknown,
}

/// What came of telling the provider.
#[derive(Debug, PartialEq, Eq)]
pub enum SinkOutcome<R> {
    Published { provider_reference: String },
    Refused(PublishMeterEventError),
    Failed(R),
}

/// The worker calls for itself, and it is on the list.
pub open spec fn worker_allowed(
    caller: Option<Text>,
    worker_callers: Seq<Text>,
    worker_id: Text,
) -> bool {
    caller_allowed(caller, worker_callers) && caller == Some(worker_id) && id_accepted(worker_id)
}

/// Whether the worker may reconcile: only a configured caller may, and only in its own name.
pub fn authorize_worker(
    caller_instance: &Option<String>,
    worker_callers: &Vec<String>,
    request: &ReconcileNextRequest,
) -> (r: Result<(), BillingError>)
    ensures
        r == if !caller_allowed(optional_text(*caller_instance), models(worker_callers@)) {
            Err::<(), BillingError>(BillingError::Forbidden)
        } else if !worker_allowed(
            optional_text(*caller_instance),
            models(worker_callers@),
            request.worker_id@,
        ) {
            Err::<(), BillingError>(BillingError::InvalidRequest)
        } else {
            Ok::<(), BillingError>(())
        },
{
    match allowed_caller(caller_instance, worker_callers) {
        None => Err(BillingError::Forbidden),
        Some(caller) => if same_text(request.worker_id.as_str(), caller.as_str()) && valid_id(
            request.worker_id.as_str(),
        ) {
            Ok(())
        } else {
            Err(BillingError::InvalidRequest)
        },
    }
}

/// The state that a declared error of the provider leaves the delivery in: failed where the
/// provider took no effect, unknown where it may have.
pub open spec fn refused_status(error: PublishMeterEventError) -> DeliveryStatus {
    match error {
        PublishMeterEventError::EffectUnknown => DeliveryStatus::Unknown,
        PublishMeterEventError::IdempotencyConflict => DeliveryStatus::Unknown,
        PublishMeterEventError::Unknown => DeliveryStatus::Unknown,
        _ => DeliveryStatus::Failed,
    }
}

/// The code that is kept of a declared error of the provider.
pub open spec fn refused_code(error: PublishMeterEventError) -> Text {
    match error {
        PublishMeterEventError::EffectUnknown => "sink_effect_unknown"@,
        PublishMeterEventError::IdempotencyConflict => "sink_effect_unknown"@,
        PublishMeterEventError::Forbidden => "sink_forbidden"@,
        PublishMeterEventError::InvalidEvent => "sink_invalid_event"@,
        PublishMeterEventError::AccountNotFound => "sink_account_not_found"@,
        PublishMeterEventError::MeterNotConfigured => "sink_meter_not_configured"@,
        PublishMeterEventError::Unknown => "sink_unknown_domain_error"@,
    }
}

/// What the worker is told of a declared error of the provider.
pub open spec fn refused_answer(error: PublishMeterEventError) -> ReconcileNextResponseStatus {
    if refused_status(error) == DeliveryStatus::Unknown {
        ReconcileNextResponseStatus::Unknown
    } else {
        ReconcileNextResponseStatus::Failed
    }
}

/// The state, the answer and the code that go with a declared error of the provider.
pub fn sink_failure(error: PublishMeterEventError) -> (r: (
    DeliveryStatus,
    ReconcileNextResponseStatus,
    &'static str,
))
    ensures
        r.0 == refused_status(error),
        r.1 == refused_answer(error),
        r.2@ == refused_code(error),
{
    match error {
        PublishMeterEventError::EffectUnknown | PublishMeterEventError::IdempotencyConflict => (
            DeliveryStatus::Unknown,
            ReconcileNextResponseStatus::Unknown,
            "sink_effect_unknown",
        ),
        PublishMeterEventError::Forbidden => (
            DeliveryStatus::Failed,
            ReconcileNextResponseStatus::Failed,
            "sink_forbidden",
        ),
        PublishMeterEventError::InvalidEvent => (
            DeliveryStatus::Failed,
            ReconcileNextResponseStatus::Failed,
            "sink_invalid_event",
        ),
        PublishMeterEventError::AccountNotFound => (
            DeliveryStatus::Failed,
            ReconcileNextResponseStatus::Failed,
            "sink_account_not_found",
        ),
        PublishMeterEventError::MeterNotConfigured => (
            DeliveryStatus::Failed,
            ReconcileNextResponseStatus::Failed,
            "sink_meter_not_configured",
        ),
        PublishMeterEventError::Unknown => (
            DeliveryStatus::Unknown,
            ReconcileNextResponseStatus::Unknown,
            "sink_unknown_domain_error",
        ),
    }
}

/// The state that the outcome leaves the delivery in.
pub open spec fn settled_status<R>(outcome: SinkOutcome<R>) -> DeliveryStatus {
    match outcome {
        SinkOutcome::Published { .. } => DeliveryStatus::Delivered,
        SinkOutcome::Refused(error) => refused_status(error),
        SinkOutcome::Failed(_) => DeliveryStatus::Unknown,
    }
}

/// The provider's reference that is kept of the outcome.
pub open spec fn settled_reference<R>(outcome: SinkOutcome<R>) -> Option<Text> {
    match outcome {
        SinkOutcome::Published { provider_reference } => Some(provider_reference@),
        _ => None,
    }
}

/// The failure code that is kept of the outcome.
pub open spec fn settled_code<R>(outcome: SinkOutcome<R>) -> Option<Text> {
    match outcome {
        SinkOutcome::Published { .. } => None,
        SinkOutcome::Refused(error) => Some(refused_code(error)),
        SinkOutcome::Failed(_) => Some("sink_runtime_failure"@),
    }
}

/// What the worker is told of the outcome: the state of the delivery, or the provider's failure.
pub open spec fn settled_answer<R>(outcome: SinkOutcome<R>) -> Result<
    ReconcileNextResponseStatus,
    R,
> {
    match outcome {
        SinkOutcome::Published { .. } => Ok(ReconcileNextResponseStatus::Delivered),
        SinkOutcome::Refused(error) => Ok(refused_answer(error)),
        SinkOutcome::Failed(own) => Err(own),
    }
}

/// A delivery that was taken on and is to be published.
#[derive(Debug)]
pub struct Attempt {
    claim: DeliveryClaim,
    worker_id: String,
}

/// What has to be done after the claim.
#[derive(Debug)]
pub enum ReconcileStep {
    Idle(ReconcileNextResponse),
    Publish(Attempt),
}

impl Attempt {
    pub closed spec fn claimed(&self) -> DeliveryClaimModel {
        self.claim@
    }

    pub closed spec fn worker(&self) -> Text {
        self.worker_id@
    }
}

/// Goes on from what the worker was given: nothing to do, or one delivery to publish.
pub fn begin_attempt(claim: Option<DeliveryClaim>, worker_id: &str) -> (r: ReconcileStep)
    ensures
        match claim {
            None => r == ReconcileStep::Idle(
                ReconcileNextResponse {
                    delivery_id: None,
                    period_id: None,
                    status: ReconcileNextResponseStatus::Idle,
                },
            ),
            Some(claim) => r matches ReconcileStep::Publish(attempt) && attempt.claimed() == claim@
                && attempt.worker() == worker_id@,
        },
{
    match claim {
        None => ReconcileStep::Idle(
            ReconcileNextResponse {
                delivery_id: None,
                period_id: None,
                status: ReconcileNextResponseStatus::Idle,
            },
        ),
        Some(claim) => ReconcileStep::Publish(Attempt { claim, worker_id: worker_id.to_owned() }),
    }
}

/// `completion` settles this attempt of this worker with this outcome.
pub open spec fn completes<R>(
    completion: Completion,
    claim: DeliveryClaimModel,
    worker_id: Text,
    outcome: SinkOutcome<R>,
) -> bool {
    &&& completion.delivery_id@ == claim.delivery_id
    &&& completion.worker_id@ == worker_id
    &&& completion.attempt == claim.attempt
    &&& completion.status == settled_status(outcome)
    &&& optional_text(completion.provider_reference) == settled_reference(outcome)
    &&& optional_text(completion.failure_code) == settled_code(outcome)
}

/// The provider is told what was claimed.
pub open spec fn tells(request: PublishMeterEventRequest, claim: DeliveryClaimModel) -> bool {
    &&& request.delivery_id@ == claim.delivery_id
    &&& request.scope_kind@ == claim.scope_kind
    &&& request.scope_id@ == claim.scope_id
    &&& request.subject@ == claim.subject
    &&& request.meter@ == claim.sink_meter
    &&& request.quantity@ == claim.quantity
    &&& request.occurred_at@ == claim.occurred_at
}

/// An outcome that has to be stored before the worker hears of it.
#[derive(Debug)]
pub struct Settlement<R> {
    completion: Completion,
    period_id: String,
    answer: Result<ReconcileNextResponseStatus, R>,
}

impl Attempt {
    /// What the provider has to be told: the quantity, and never an amount.
    pub fn request(&self) -> (r: PublishMeterEventRequest)
        ensures
            r.delivery_id@ == self.claimed().delivery_id,
            r.scope_kind@ == self.claimed().scope_kind,
            r.scope_id@ == self.claimed().scope_id,
            r.subject@ == self.claimed().subject,
            r.meter@ == self.claimed().sink_meter,
            r.quantity@ == self.claimed().quantity,
            r.occurred_at@ == self.claimed().occurred_at,
            tells(r, self.claimed()),
    {
        PublishMeterEventRequest {
            delivery_id: self.claim.delivery_id.clone(),
            scope_kind: self.claim.scope_kind.clone(),
            scope_id: self.claim.scope_id.clone(),
            subject: self.claim.subject.clone(),
            meter: self.claim.sink_meter.clone(),
            quantity: self.claim.quantity.clone(),
            occurred_at: self.claim.occurred_at.clone(),
        }
    }

    /// What the outcome means for the delivery.
    pub fn settled<R>(self, outcome: SinkOutcome<R>) -> (r: Settlement<R>)
        ensures
            completes(r.stored_as(), self.claimed(), self.worker(), outcome),
            r.period() == self.claimed().period_id,
            r.answer() == settled_answer(outcome),
    {
        let (status, provider_reference, failure_code, answer): (
            DeliveryStatus,
            Option<String>,
            Option<String>,
            Result<ReconcileNextResponseStatus, R>,
        ) = match outcome {
            SinkOutcome::Published { provider_reference } => (
                DeliveryStatus::Delivered,
                Some(provider_reference),
                None,
                Ok(ReconcileNextResponseStatus::Delivered),
            ),
            SinkOutcome::Refused(error) => {
                let (status, answer, code) = sink_failure(error);
                (status, None, Some(code.to_owned()), Ok(answer))
            },
            SinkOutcome::Failed(own) => (
                DeliveryStatus::Unknown,
                None,
                Some("sink_runtime_failure".to_owned()),
                Err(own),
            ),
        };
        Settlement {
            completion: Completion {
                delivery_id: self.claim.delivery_id,
                worker_id: self.worker_id,
                attempt: self.claim.attempt,
                status,
                provider_reference,
                failure_code,
            },
            period_id: self.claim.period_id,
            answer,
        }
    }
}

impl<R> Settlement<R> {
    pub closed spec fn stored_as(&self) -> Completion {
        self.completion
    }

    pub closed spec fn period(&self) -> Text {
        self.period_id@
    }

    pub closed spec fn answer(&self) -> Result<ReconcileNextResponseStatus, R> {
        self.answer
    }

    /// What has to be stored.
    pub fn completion(&self) -> (r: &Completion)
        ensures
            *r == self.stored_as(),
    {
        &self.completion
    }

    /// The answer, once storing has ended: a storage failure is reported, a failure of the
    /// provider is handed on, and else the worker is told the state of the delivery.
    pub fn finish(self, stored: Result<(), StorageError>) -> (r: Result<
        ReconcileNextResponse,
        PluginError<BillingError, R>,
    >)
        ensures
            match (stored, self.answer()) {
                (Err(error), _) => r is Err && is_plugin_failure(
                    r->Err_0,
                    storage_message(error@),
                ),
                (Ok(_), Err(own)) => r == Err::<
                    ReconcileNextResponse,
                    PluginError<BillingError, R>,
                >(PluginError::Runtime(RuntimeFailure::Dependency(own))),
                (Ok(_), Ok(status)) => {
                    &&& r matches Ok(answer)
                    &&& optional_text(answer.delivery_id) == Some(self.stored_as().delivery_id@)
                    &&& optional_text(answer.period_id) == Some(self.period())
                    &&& answer.status == status
                },
            },
    {
        match stored {
            Err(error) => {
                return Err(storage_runtime(&error));
            },
            Ok(_) => {},
        }
        match self.answer {
            Err(own) => Err(PluginError::Runtime(RuntimeFailure::Dependency(own))),
            Ok(status) => Ok(
                ReconcileNextResponse {
                    delivery_id: Some(self.completion.delivery_id),
                    period_id: Some(self.period_id),
                    status,
                },
            ),
        }
    }
}

/// A worker may reconcile exactly when it is on the list and calls in its own name.
pub proof fn law_workers_call_for_themselves(
    caller: Option<Text>,
    worker_callers: Seq<Text>,
    worker_id: Text,
)
    ensures
        worker_allowed(caller, worker_callers, worker_id) <==> {
            &&& caller == Some(worker_id)
            &&& worker_callers.contains(worker_id)
            &&& text_accepted(worker_id, 512, false)
        },
{
}

/// A refusal of the provider leaves the delivery unknown where it may have taken effect, and
/// failed where it has not; the worker is told the same; and the code says which refusal it was.
pub proof fn law_refusals_are_told_apart(error: PublishMeterEventError)
    ensures
        refused_status(error) == DeliveryStatus::Unknown <==> error
            == PublishMeterEventError::EffectUnknown || error
            == PublishMeterEventError::IdempotencyConflict || error
            == PublishMeterEventError::Unknown,
        refused_status(error) == DeliveryStatus::Failed || refused_status(error)
            == DeliveryStatus::Unknown,
        refused_answer(error) == ReconcileNextResponseStatus::Unknown <==> refused_status(error)
            == DeliveryStatus::Unknown,
        refused_answer(error) == ReconcileNextResponseStatus::Failed <==> refused_status(error)
            == DeliveryStatus::Failed,
        match error {
            PublishMeterEventError::AccountNotFound => refused_code(error)
                == "sink_account_not_found"@,
            PublishMeterEventError::EffectUnknown => refused_code(error) == "sink_effect_unknown"@,
            PublishMeterEventError::Forbidden => refused_code(error) == "sink_forbidden"@,
            PublishMeterEventError::IdempotencyConflict => refused_code(error)
                == "sink_effect_unknown"@,
            PublishMeterEventError::InvalidEvent => refused_code(error) == "sink_invalid_event"@,
            PublishMeterEventError::MeterNotConfigured => refused_code(error)
                == "sink_meter_not_configured"@,
            PublishMeterEventError::Unknown => refused_code(error) == "sink_unknown_domain_error"@,
        },
{
}

/// An attempt is completed in the name of its worker, for its delivery and by its number:
/// delivered with the provider's reference where the provider took the event, and else without
/// one, with the code of the refusal or of the failure. The worker is told the state that is
/// stored, except that a failure of the provider is handed on to it.
pub proof fn law_attempts_are_completed_as_they_ended<R>(
    completion: Completion,
    claim: DeliveryClaimModel,
    worker_id: Text,
    outcome: SinkOutcome<R>,
)
    requires
        completes(completion, claim, worker_id, outcome),
    ensures
        completion.delivery_id@ == claim.delivery_id,
        completion.worker_id@ == worker_id,
        completion.attempt == claim.attempt,
        match outcome {
            SinkOutcome::Published { provider_reference } => {
                &&& completion.status == DeliveryStatus::Delivered
                &&& completion.provider_reference matches Some(kept) && kept@
                    == provider_reference@
                &&& completion.failure_code is None
                &&& settled_answer(outcome) == Ok::<ReconcileNextResponseStatus, R>(
                    ReconcileNextResponseStatus::Delivered,
                )
            },
            SinkOutcome::Refused(error) => {
                &&& completion.status == refused_status(error)
                &&& completion.provider_reference is None
                &&& completion.failure_code matches Some(code) && code@ == refused_code(error)
                &&& settled_answer(outcome) == Ok::<ReconcileNextResponseStatus, R>(
                    refused_answer(error),
                )
            },
            SinkOutcome::Failed(own) => {
                &&& completion.status == DeliveryStatus::Unknown
                &&& completion.provider_reference is None
                &&& completion.failure_code matches Some(code) && code@ == "sink_runtime_failure"@
                &&& settled_answer(outcome) == Err::<ReconcileNextResponseStatus, R>(own)
            },
        },
{
}

} // verus!
