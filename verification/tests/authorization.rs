use usage_billing::authorize::{
    allowed_caller, authenticated_subject, authorize_admin, AdminOperation, MembershipCheck,
    PermissionCheck,
};
use usage_billing::error::{
    map_authorization, AuthorizationFailure, BillingError, PluginError, Reply, RuntimeFailure,
};

fn callers() -> Vec<String> {
    vec!["billing-api".to_owned(), "billing-console".to_owned()]
}

fn membership_check(operation: AdminOperation) -> MembershipCheck {
    authorize_admin::<&str>(operation, &Some("billing-api".to_owned()), &callers())
        .unwrap()
        .authenticated::<&str>(Some("usr_1".to_owned()), "org_1")
        .unwrap()
}

fn permission_check(operation: AdminOperation) -> PermissionCheck {
    membership_check(operation)
        .answered::<&str>(Reply::Answered(true))
        .unwrap()
}

#[test]
fn callers_are_matched_exactly() {
    let allowed = callers();
    assert_eq!(
        allowed_caller(&Some("billing-api".to_owned()), &allowed),
        Some("billing-api".to_owned())
    );
    assert_eq!(allowed_caller(&Some("billing-ap".to_owned()), &allowed), None);
    assert_eq!(allowed_caller(&Some("Billing-api".to_owned()), &allowed), None);
    assert_eq!(allowed_caller(&None, &allowed), None);
}

#[test]
fn unknown_callers_are_forbidden() {
    let result = authorize_admin::<&str>(
        AdminOperation::GetAccount,
        &Some("untrusted".to_owned()),
        &callers(),
    );
    assert_eq!(result.unwrap_err(), AuthorizationFailure::Forbidden);
}

#[test]
fn subjects_have_to_be_ids() {
    assert_eq!(
        authenticated_subject(Some("usr_1".to_owned())),
        Ok("usr_1".to_owned())
    );
    assert_eq!(authenticated_subject(Some(" ".to_owned())), Err(()));
    assert_eq!(authenticated_subject(None), Err(()));
    let result = authorize_admin::<&str>(
        AdminOperation::GetAccount,
        &Some("billing-api".to_owned()),
        &callers(),
    )
    .unwrap()
    .authenticated::<&str>(None, "org_1");
    assert_eq!(result.unwrap_err(), AuthorizationFailure::Unauthenticated);
}

#[test]
fn admission_asks_for_membership_and_then_for_the_permission() {
    let check = membership_check(AdminOperation::ClosePeriod);
    let request = check.request();
    assert_eq!(request.organization_id, "org_1");
    assert_eq!(request.subject, "usr_1");
    let check = check.answered::<&str>(Reply::Answered(true)).unwrap();
    let request = check.request();
    assert_eq!(request.subject, "usr_1");
    assert_eq!(request.scope.kind, "organization");
    assert_eq!(request.scope.id, "org_1");
    assert_eq!(request.permission, "billing.periods.close");
    assert_eq!(
        check.answered::<&str>(Reply::Answered(true)),
        Ok(("billing-api".to_owned(), "usr_1".to_owned()))
    );
}

#[test]
fn membership_has_to_be_active() {
    let check = membership_check(AdminOperation::PutAccount);
    assert_eq!(
        check.answered::<&str>(Reply::Answered(false)).unwrap_err(),
        AuthorizationFailure::Forbidden
    );
    let check = membership_check(AdminOperation::PutAccount);
    assert_eq!(
        check.answered::<&str>(Reply::Rejected).unwrap_err(),
        AuthorizationFailure::Runtime(RuntimeFailure::PluginFailure {
            detail: "Organization Membership rejected a Usage Billing authorization query"
                .to_owned(),
        })
    );
    let check = membership_check(AdminOperation::PutAccount);
    assert_eq!(
        check.answered(Reply::Failed("unavailable")).unwrap_err(),
        AuthorizationFailure::Runtime(RuntimeFailure::Dependency("unavailable"))
    );
}

#[test]
fn permission_has_to_be_held() {
    let check = permission_check(AdminOperation::PutAccount);
    assert_eq!(
        check.answered::<&str>(Reply::Answered(false)),
        Err(AuthorizationFailure::Forbidden)
    );
    let check = permission_check(AdminOperation::PutAccount);
    assert_eq!(
        check.answered::<&str>(Reply::Rejected),
        Err(AuthorizationFailure::Runtime(RuntimeFailure::PluginFailure {
            detail: "Access Control rejected a Usage Billing authorization query".to_owned(),
        }))
    );
    let check = permission_check(AdminOperation::PutAccount);
    assert_eq!(
        check.answered(Reply::Failed("unavailable")),
        Err(AuthorizationFailure::Runtime(RuntimeFailure::Dependency(
            "unavailable"
        )))
    );
}

#[test]
fn every_operation_needs_its_permission() {
    for (operation, name, permission) in [
        (AdminOperation::PutAccount, "put_account", "billing.accounts.write"),
        (AdminOperation::GetAccount, "get_account", "billing.accounts.read"),
        (AdminOperation::ListAccounts, "list_accounts", "billing.accounts.read"),
        (AdminOperation::ClosePeriod, "close_period", "billing.periods.close"),
        (AdminOperation::GetPeriod, "get_period", "billing.accounts.read"),
        (AdminOperation::ListPeriods, "list_periods", "billing.accounts.read"),
        (AdminOperation::InspectDelivery, "inspect_delivery", "billing.accounts.read"),
        (AdminOperation::ResolveDelivery, "resolve_delivery", "billing.deliveries.resolve"),
    ] {
        assert_eq!(operation.name(), name);
        assert_eq!(operation.permission(), permission);
    }
}

#[test]
fn refusals_become_declared_errors() {
    assert_eq!(
        map_authorization::<()>(AuthorizationFailure::Unauthenticated),
        PluginError::Domain(BillingError::Unauthenticated)
    );
    assert_eq!(
        map_authorization::<()>(AuthorizationFailure::Forbidden),
        PluginError::Domain(BillingError::Forbidden)
    );
    assert_eq!(
        map_authorization(AuthorizationFailure::Runtime(RuntimeFailure::Dependency(7))),
        PluginError::Runtime(RuntimeFailure::Dependency(7))
    );
}
