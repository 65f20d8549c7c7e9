use lenso_kernel::{CancellationToken, InvocationContext};
use usage_billing::error::{
    BillingError, DomainFailure, PluginError, RuntimeFailure, StorageErrorOf,
};
use usage_billing::model::{DeliveryClaim, DeliveryStatus};
use usage_billing::reconcile::{
    authorize_worker, begin_attempt, sink_failure, Attempt, PublishMeterEventError,
    ReconcileNextRequest, ReconcileNextResponse, ReconcileNextResponseStatus, ReconcileStep,
    SinkOutcome,
};

fn context(caller: &str) -> InvocationContext {
    InvocationContext::new(1, None, CancellationToken::new()).with_caller_instance(caller)
}

fn workers() -> Vec<String> {
    vec!["billing-worker".to_owned()]
}

fn claim() -> DeliveryClaim {
    DeliveryClaim {
        period_id: "period_1".to_owned(),
        delivery_id: "billing_delivery_1".to_owned(),
        scope_kind: "organization".to_owned(),
        scope_id: "org_1".to_owned(),
        subject: "org_1".to_owned(),
        sink_meter: "ai_tokens".to_owned(),
        quantity: "10".to_owned(),
        occurred_at: "2023-11-14T23:13:20Z".to_owned(),
        attempt: 3,
    }
}

fn attempt() -> Attempt {
    match begin_attempt(Some(claim()), "billing-worker") {
        ReconcileStep::Publish(attempt) => attempt,
        ReconcileStep::Idle(_) => panic!("there was a claim"),
    }
}

#[test]
fn untrusted_worker_is_rejected_before_storage_and_sink() {
    let request = ReconcileNextRequest {
        worker_id: "billing-worker".to_owned(),
    };
    let caller = context("untrusted-worker").caller_instance().map(str::to_owned);
    assert_eq!(
        authorize_worker(&caller, &workers(), &request),
        Err(BillingError::Forbidden)
    );
}

#[test]
fn workers_act_in_their_own_name() {
    let workers = vec!["billing-worker".to_owned(), "other-worker".to_owned()];
    let caller = context("billing-worker").caller_instance().map(str::to_owned);
    let own = ReconcileNextRequest {
        worker_id: "billing-worker".to_owned(),
    };
    let other = ReconcileNextRequest {
        worker_id: "other-worker".to_owned(),
    };
    assert_eq!(authorize_worker(&caller, &workers, &own), Ok(()));
    assert_eq!(
        authorize_worker(&caller, &workers, &other),
        Err(BillingError::InvalidRequest)
    );
    assert_eq!(
        authorize_worker(&None, &workers, &own),
        Err(BillingError::Forbidden)
    );
}

#[test]
fn without_a_claim_the_worker_is_idle() {
    match begin_attempt(None, "billing-worker") {
        ReconcileStep::Idle(response) => assert_eq!(
            response,
            ReconcileNextResponse {
                delivery_id: None,
                period_id: None,
                status: ReconcileNextResponseStatus::Idle,
            }
        ),
        ReconcileStep::Publish(_) => panic!("there was no claim"),
    }
}

#[test]
fn the_provider_is_told_the_quantity() {
    let request = attempt().request();
    assert_eq!(request.delivery_id, "billing_delivery_1");
    assert_eq!(request.scope_kind, "organization");
    assert_eq!(request.scope_id, "org_1");
    assert_eq!(request.subject, "org_1");
    assert_eq!(request.meter, "ai_tokens");
    assert_eq!(request.quantity, "10");
    assert_eq!(request.occurred_at, "2023-11-14T23:13:20Z");
}

#[test]
fn a_published_delivery_is_delivered() {
    let settlement = attempt().settled::<()>(SinkOutcome::Published {
        provider_reference: "provider-event-1".to_owned(),
    });
    let completion = settlement.completion();
    assert_eq!(completion.delivery_id, "billing_delivery_1");
    assert_eq!(completion.worker_id, "billing-worker");
    assert_eq!(completion.attempt, 3);
    assert_eq!(completion.status, DeliveryStatus::Delivered);
    assert_eq!(
        completion.provider_reference,
        Some("provider-event-1".to_owned())
    );
    assert_eq!(completion.failure_code, None);
    assert_eq!(
        settlement.finish(Ok(())),
        Ok(ReconcileNextResponse {
            delivery_id: Some("billing_delivery_1".to_owned()),
            period_id: Some("period_1".to_owned()),
            status: ReconcileNextResponseStatus::Delivered,
        })
    );
}

#[test]
fn declared_errors_of_the_provider_are_failed_or_unknown() {
    for (error, status, response, code) in [
        (
            PublishMeterEventError::EffectUnknown,
            DeliveryStatus::Unknown,
            ReconcileNextResponseStatus::Unknown,
            "sink_effect_unknown",
        ),
        (
            PublishMeterEventError::IdempotencyConflict,
            DeliveryStatus::Unknown,
            ReconcileNextResponseStatus::Unknown,
            "sink_effect_unknown",
        ),
        (
            PublishMeterEventError::Forbidden,
            DeliveryStatus::Failed,
            ReconcileNextResponseStatus::Failed,
            "sink_forbidden",
        ),
        (
            PublishMeterEventError::InvalidEvent,
            DeliveryStatus::Failed,
            ReconcileNextResponseStatus::Failed,
            "sink_invalid_event",
        ),
        (
            PublishMeterEventError::AccountNotFound,
            DeliveryStatus::Failed,
            ReconcileNextResponseStatus::Failed,
            "sink_account_not_found",
        ),
        (
            PublishMeterEventError::MeterNotConfigured,
            DeliveryStatus::Failed,
            ReconcileNextResponseStatus::Failed,
            "sink_meter_not_configured",
        ),
        (
            PublishMeterEventError::Unknown,
            DeliveryStatus::Unknown,
            ReconcileNextResponseStatus::Unknown,
            "sink_unknown_domain_error",
        ),
    ] {
        assert_eq!(sink_failure(error), (status, response, code));
        let settlement = attempt().settled::<()>(SinkOutcome::Refused(error));
        assert_eq!(settlement.completion().status, status);
        assert_eq!(settlement.completion().provider_reference, None);
        assert_eq!(settlement.completion().failure_code, Some(code.to_owned()));
        assert_eq!(settlement.finish(Ok(())).unwrap().status, response);
    }
}

#[test]
fn a_failing_provider_is_unknown_before_it_is_reported() {
    let settlement = attempt().settled(SinkOutcome::Failed("timed out"));
    assert_eq!(settlement.completion().status, DeliveryStatus::Unknown);
    assert_eq!(
        settlement.completion().failure_code,
        Some("sink_runtime_failure".to_owned())
    );
    assert_eq!(
        settlement.finish(Ok(())),
        Err(PluginError::Runtime(RuntimeFailure::Dependency("timed out")))
    );
}

#[test]
fn a_completion_that_is_not_stored_is_reported() {
    let settlement = attempt().settled(SinkOutcome::Failed("timed out"));
    assert_eq!(
        settlement.finish(Err(StorageErrorOf::Domain(DomainFailure::DeliveryNotFound))),
        Err(PluginError::Runtime(RuntimeFailure::PluginFailure {
            detail: "usage billing domain failure: DeliveryNotFound".to_owned(),
        }))
    );
}
