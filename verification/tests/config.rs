use lenso_auth_sdk::ActorAssertionIssuer;
use usage_billing::config::{
    validate_callers, validate_config, UsageBillingConfig, UsageBillingConfigError,
};
use usage_billing::error::RuntimeFailure;
use usage_billing::lifecycle::activate_schema;

fn config() -> UsageBillingConfig {
    let issuer = ActorAssertionIssuer::new("auth.users", b"usage-billing-test-key");
    UsageBillingConfig::new(
        "usage_billing",
        "usage-billing/database-url",
        "auth.users",
        issuer.public_key_base64(),
        vec!["billing-api".to_owned()],
        vec!["billing-worker".to_owned()],
        60,
        5,
        50,
    )
    .unwrap()
}

#[test]
fn configuration_rejects_duplicate_worker_callers() {
    let mut invalid = config();
    invalid.worker_callers.push("billing-worker".to_owned());
    assert_eq!(
        invalid.validate(),
        Err(UsageBillingConfigError::InvalidWorkerCallers)
    );
}

#[test]
fn configuration_keeps_what_it_was_given() {
    let valid = config();
    assert_eq!(valid.validate(), Ok(()));
    assert_eq!(valid.schema, "usage_billing");
    assert_eq!(valid.database_url_secret, "usage-billing/database-url");
    assert_eq!(valid.auth_issuer, "auth.users");
    assert_eq!(valid.admin_callers, vec!["billing-api".to_owned()]);
    assert_eq!(valid.worker_callers, vec!["billing-worker".to_owned()]);
    assert_eq!(valid.delivery_lease_seconds, 60);
    assert_eq!(valid.max_delivery_attempts, 5);
    assert_eq!(valid.max_meters_per_account, 50);
}

#[test]
fn every_error_of_the_configuration_has_its_input() {
    let mut invalid = config();
    invalid.schema = "public".to_owned();
    assert_eq!(invalid.validate(), Err(UsageBillingConfigError::InvalidSchema));
    let mut invalid = config();
    invalid.database_url_secret = "a b".to_owned();
    assert_eq!(
        invalid.validate(),
        Err(UsageBillingConfigError::InvalidSecretReference)
    );
    let mut invalid = config();
    invalid.auth_issuer = String::new();
    assert_eq!(
        invalid.validate(),
        Err(UsageBillingConfigError::InvalidAuthIssuer)
    );
    let mut invalid = config();
    invalid.auth_assertion_public_key = "no key".to_owned();
    assert_eq!(
        invalid.validate(),
        Err(UsageBillingConfigError::InvalidAuthPublicKey)
    );
    let mut invalid = config();
    invalid.admin_callers = Vec::new();
    assert_eq!(
        invalid.validate(),
        Err(UsageBillingConfigError::InvalidAdminCallers)
    );
    for (seconds, wanted) in [
        (4, Err(UsageBillingConfigError::InvalidLease)),
        (5, Ok(())),
        (3_600, Ok(())),
        (3_601, Err(UsageBillingConfigError::InvalidLease)),
    ] {
        let mut bounded = config();
        bounded.delivery_lease_seconds = seconds;
        assert_eq!(bounded.validate(), wanted);
    }
    for (attempts, wanted) in [
        (0, Err(UsageBillingConfigError::InvalidAttempts)),
        (1, Ok(())),
        (100, Ok(())),
        (101, Err(UsageBillingConfigError::InvalidAttempts)),
    ] {
        let mut bounded = config();
        bounded.max_delivery_attempts = attempts;
        assert_eq!(bounded.validate(), wanted);
    }
    for (meters, wanted) in [
        (0, Err(UsageBillingConfigError::InvalidMeterLimit)),
        (1, Ok(())),
        (200, Ok(())),
        (201, Err(UsageBillingConfigError::InvalidMeterLimit)),
    ] {
        let mut bounded = config();
        bounded.max_meters_per_account = meters;
        assert_eq!(bounded.validate(), wanted);
    }
}

#[test]
fn the_first_fault_is_reported() {
    let mut invalid = config();
    invalid.schema = "Orders".to_owned();
    invalid.auth_issuer = String::new();
    invalid.delivery_lease_seconds = 0;
    assert_eq!(invalid.validate(), Err(UsageBillingConfigError::InvalidSchema));
    let mut unchecked = config();
    unchecked.auth_assertion_public_key = "no key".to_owned();
    assert_eq!(unchecked.check(true), Ok(()));
    assert_eq!(
        config().check(false),
        Err(UsageBillingConfigError::InvalidAuthPublicKey)
    );
}

#[test]
fn new_reports_what_validate_reports() {
    let result = UsageBillingConfig::new(
        "pg_billing".to_owned(),
        "secret",
        "issuer",
        "key",
        Vec::new(),
        Vec::new(),
        0,
        0,
        0,
    );
    assert_eq!(result, Err(UsageBillingConfigError::InvalidSchema));
}

#[test]
fn schemas_are_named_for_one_owner() {
    let long = "a".repeat(63);
    let too_long = "a".repeat(64);
    for (name, accepted) in [
        ("usage_billing", true),
        ("a", true),
        ("a_1", true),
        ("public2", true),
        ("pgx", true),
        (long.as_str(), true),
        (too_long.as_str(), false),
        ("", false),
        ("public", false),
        ("information_schema", false),
        ("pg_catalog", false),
        ("Orders", false),
        ("1orders", false),
        ("_orders", false),
        ("orders-module", false),
        ("\u{e9}tude", false),
    ] {
        let result: Result<(), RuntimeFailure<()>> = activate_schema(name);
        if accepted {
            assert_eq!(result, Ok(()), "{name}");
        } else {
            assert_eq!(
                result,
                Err(RuntimeFailure::InvalidResolvedPlan {
                    detail: format!("invalid owned schema name `{name}`"),
                })
            );
        }
    }
}

#[test]
fn callers_are_unique_and_bounded() {
    let many: Vec<String> = (0..64).map(|number| format!("caller-{number}")).collect();
    assert_eq!(validate_callers(&many), Ok(()));
    let mut more = many;
    more.push("one-more".to_owned());
    assert_eq!(validate_callers(&more), Err(()));
    assert_eq!(validate_callers(&Vec::new()), Err(()));
    assert_eq!(validate_callers(&vec!["a b".to_owned()]), Err(()));
    assert_eq!(
        validate_callers(&vec!["a".to_owned(), "b".to_owned(), "a".to_owned()]),
        Err(())
    );
}

#[test]
fn invalid_configuration_is_an_invalid_plan() {
    let mut invalid = config();
    invalid.max_delivery_attempts = 0;
    let result: Result<(), RuntimeFailure<()>> = validate_config(&invalid);
    assert_eq!(
        result,
        Err(RuntimeFailure::InvalidResolvedPlan {
            detail: "Usage Billing configuration is invalid: max_delivery_attempts must be between 1 and 100"
                .to_owned(),
        })
    );
    let result: Result<(), RuntimeFailure<()>> = validate_config(&config());
    assert_eq!(result, Ok(()));
}

#[test]
fn assertions_are_verified_with_the_configured_key() {
    let valid = config();
    let authority = valid.assertion_authority::<()>().unwrap();
    assert_eq!(authority.issuer, "auth.users");
    assert_eq!(authority.public_key, valid.auth_assertion_public_key);
    let mut invalid = config();
    invalid.auth_assertion_public_key.push('A');
    assert_eq!(
        invalid.assertion_authority::<()>(),
        Err(RuntimeFailure::InvalidResolvedPlan {
            detail: "Usage Billing Auth verification key is invalid".to_owned(),
        })
    );
}
