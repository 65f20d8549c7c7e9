use usage_billing::error::{
    map_domain, map_storage, serialization_runtime, storage_runtime, storage_to_plugin,
    BillingError, DomainFailure, PluginError, Reply, RuntimeFailure, StorageError, StorageErrorOf,
};
use usage_billing::lifecycle::{activated, deactivated, prepared, resolve_secret};

#[test]
fn refusals_of_storage_are_declared() {
    for (failure, error) in [
        (DomainFailure::NotFound, BillingError::NotFound),
        (DomainFailure::RevisionConflict, BillingError::RevisionConflict),
        (
            DomainFailure::IdempotencyConflict,
            BillingError::IdempotencyConflict,
        ),
        (DomainFailure::PeriodConflict, BillingError::PeriodConflict),
        (DomainFailure::AccountDisabled, BillingError::AccountDisabled),
        (DomainFailure::DeliveryNotFound, BillingError::DeliveryNotFound),
        (
            DomainFailure::InvalidResolution,
            BillingError::InvalidResolution,
        ),
    ] {
        assert_eq!(map_domain(failure), error);
        let refused: StorageError = StorageErrorOf::Domain(failure);
        assert_eq!(
            storage_to_plugin::<()>(&refused),
            PluginError::Domain(error)
        );
        assert_eq!(
            refused.message(),
            format!("usage billing domain failure: {failure:?}")
        );
        assert_eq!(
            map_storage::<u8, ()>(Err(refused)),
            Err(PluginError::Domain(error))
        );
    }
}

#[test]
fn other_storage_failures_are_reported() {
    let failures: [(StorageError, &str); 3] = [
        (
            StorageErrorOf::Database {
                operation: "read billing account".to_owned(),
            },
            "PostgreSQL operation `read billing account` failed",
        ),
        (
            StorageErrorOf::InvalidStored("year out of range".to_owned()),
            "stored Usage Billing value is invalid: year out of range",
        ),
        (
            StorageErrorOf::Serialization,
            "Usage Billing response serialization failed",
        ),
    ];
    for (failure, message) in failures {
        let wanted = PluginError::Runtime(RuntimeFailure::PluginFailure {
            detail: message.to_owned(),
        });
        assert_eq!(failure.message(), message);
        assert_eq!(storage_to_plugin::<()>(&failure), wanted);
        assert_eq!(storage_runtime::<BillingError, ()>(&failure), wanted);
        assert_eq!(map_storage::<u8, ()>(Err(failure)), Err(wanted));
    }
    assert_eq!(map_storage::<u8, ()>(Ok(7)), Ok(7));
}

#[test]
fn wire_failures_are_internal() {
    assert_eq!(
        serialization_runtime::<BillingError, ()>("missing field"),
        PluginError::Runtime(RuntimeFailure::Internal {
            detail: "Usage Billing wire serialization failed: missing field".to_owned(),
        })
    );
}

#[test]
fn secrets_are_resolved_or_reported() {
    assert_eq!(
        resolve_secret::<()>("billing/url", Reply::Answered("postgres://".to_owned())),
        Ok("postgres://".to_owned())
    );
    assert_eq!(
        resolve_secret::<()>("billing/url", Reply::Rejected),
        Err(RuntimeFailure::PluginFailure {
            detail: "database URL secret `billing/url` was rejected".to_owned(),
        })
    );
    assert_eq!(
        resolve_secret("billing/url", Reply::Failed(9)),
        Err(RuntimeFailure::Dependency(9))
    );
}

#[test]
fn nothing_works_before_activation() {
    assert_eq!(prepared::<u8, ()>(Some(1)), Ok(1));
    assert_eq!(
        prepared::<u8, ()>(None),
        Err(RuntimeFailure::PluginFailure {
            detail: "Usage Billing Plugin is not prepared".to_owned(),
        })
    );
}

#[test]
fn ready_exactly_while_active() {
    let failed = || {
        Err(RuntimeFailure::<()>::Internal {
            detail: "no database".to_owned(),
        })
    };
    let mut state: Option<u8> = None;
    assert_eq!(activated(&mut state, failed()), failed().map(|_: u8| ()));
    assert_eq!(state, None);
    assert_eq!(activated::<u8, ()>(&mut state, Ok(1)), Ok(()));
    assert_eq!(prepared::<u8, ()>(state), Ok(1));
    assert!(activated(&mut state, failed()).is_err());
    assert_eq!(prepared::<u8, ()>(state), Ok(1));
    assert_eq!(activated::<u8, ()>(&mut state, Ok(2)), Ok(()));
    assert_eq!(deactivated(&mut state), Some(2));
    assert!(prepared::<u8, ()>(state).is_err());
    assert_eq!(deactivated(&mut state), None);
    assert!(activated(&mut state, failed()).is_err());
    assert!(prepared::<u8, ()>(state).is_err());
}
