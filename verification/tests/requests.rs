use usage_billing::digest::request_hash;
use usage_billing::error::BillingError;
use usage_billing::model::{AccountStatus, MeterView, Resolution};
use usage_billing::requests::{
    check_close_period, check_get_account, check_get_period, check_inspect_delivery,
    check_list_accounts, check_list_periods, prepare_put_account, prepare_resolve_delivery,
    validate_meters, window_between, ClosePeriodRequest, CloseWindow, GetAccountRequest,
    GetPeriodRequest, InspectDeliveryRequest, ListAccountsRequest, ListPeriodsRequest,
    PutAccountRequest, ResolveDeliveryRequest,
};

fn meter(mapping_id: &str, source_meter: &str, price: &str) -> MeterView {
    MeterView {
        mapping_id: mapping_id.to_owned(),
        source_scope_kind: "organization".to_owned(),
        source_scope_id: "org_1".to_owned(),
        source_subject: "org_1".to_owned(),
        source_meter: source_meter.to_owned(),
        sink_meter: "ai_tokens".to_owned(),
        unit_price_minor: price.to_owned(),
    }
}

fn put(meters: Vec<MeterView>) -> PutAccountRequest {
    PutAccountRequest {
        organization_id: "org_1".to_owned(),
        account_id: "account_1".to_owned(),
        scope_kind: "organization".to_owned(),
        scope_id: "org_1".to_owned(),
        subject: "org_1".to_owned(),
        currency: "USD".to_owned(),
        status: AccountStatus::Active,
        expected_revision: "0".to_owned(),
        idempotency_key: "account-create".to_owned(),
        meters,
    }
}

fn close() -> ClosePeriodRequest {
    ClosePeriodRequest {
        organization_id: "org_1".to_owned(),
        account_id: "account_1".to_owned(),
        period_id: "period_1".to_owned(),
        period_start: "2023-11-14T22:13:20Z".to_owned(),
        period_end: "2023-11-15T00:13:20+01:00".to_owned(),
        expected_account_revision: "1".to_owned(),
        idempotency_key: "period-close".to_owned(),
    }
}

fn resolve() -> ResolveDeliveryRequest {
    ResolveDeliveryRequest {
        organization_id: "org_1".to_owned(),
        delivery_id: "billing_delivery_1".to_owned(),
        resolution: Resolution::Delivered,
        provider_reference: Some(Some("provider-event-1".to_owned())),
        reason: "confirmed by the provider".to_owned(),
        idempotency_key: "resolve".to_owned(),
    }
}

fn put_refused(request: &PutAccountRequest) -> bool {
    let result = prepare_put_account(request, 50, "api".to_owned(), "usr".to_owned(), b"wire");
    matches!(result, Err(BillingError::InvalidRequest))
}

fn resolve_refused(request: &ResolveDeliveryRequest) -> bool {
    let result = prepare_resolve_delivery(request, "api".to_owned(), "usr".to_owned(), b"wire");
    matches!(result, Err(BillingError::InvalidRequest))
}

#[test]
fn meters_are_validated_and_priced_canonically() {
    let request = put(vec![meter("tokens", "tokens", "+002"), meter("calls", "calls", "0")]);
    let meters = validate_meters(&request, 2).unwrap();
    assert_eq!(
        meters,
        vec![meter("tokens", "tokens", "2"), meter("calls", "calls", "0")]
    );
    assert_eq!(validate_meters(&request, 1), None);
    assert_eq!(validate_meters(&put(Vec::new()), 50), None);
}

#[test]
fn meters_have_different_ids_and_different_sources() {
    let request = put(vec![meter("tokens", "tokens", "2"), meter("tokens", "calls", "2")]);
    assert_eq!(validate_meters(&request, 50), None);
    let request = put(vec![meter("tokens", "tokens", "2"), meter("calls", "tokens", "3")]);
    assert_eq!(validate_meters(&request, 50), None);
    let mut elsewhere = meter("calls", "tokens", "3");
    elsewhere.source_subject = "usr_2".to_owned();
    let request = put(vec![meter("tokens", "tokens", "2"), elsewhere]);
    assert!(validate_meters(&request, 50).is_some());
}

#[test]
fn prices_are_whole_numbers_from_zero_on() {
    for price in ["-1", "1.5", "", "two"] {
        assert_eq!(
            validate_meters(&put(vec![meter("tokens", "tokens", price)]), 50),
            None
        );
    }
    assert!(validate_meters(&put(vec![meter("tokens", "tokens", "-0")]), 50).is_some());
    let huge = "9".repeat(60);
    assert_eq!(
        validate_meters(&put(vec![meter("tokens", "tokens", &huge)]), 50).unwrap()[0]
            .unit_price_minor,
        huge
    );
}

#[test]
fn texts_of_a_meter_are_bounded() {
    let mut long_kind = meter("tokens", "tokens", "1");
    long_kind.source_scope_kind = "k".repeat(129);
    let mut long_sink = meter("tokens", "tokens", "1");
    long_sink.sink_meter = "s".repeat(101);
    let mut blank = meter(" ", "tokens", "1");
    blank.source_scope_id = "org_1".to_owned();
    for refused in [
        long_kind,
        long_sink,
        blank,
        meter("tokens", &"m".repeat(129), "1"),
        meter(&"i".repeat(513), "tokens", "1"),
    ] {
        assert_eq!(validate_meters(&put(vec![refused]), 50), None);
    }
    let mut widest = meter(&"i".repeat(512), &"m".repeat(128), "1");
    widest.sink_meter = "s".repeat(100);
    assert!(validate_meters(&put(vec![widest]), 50).is_some());
}

#[test]
fn an_accepted_put_is_handed_to_storage() {
    let mut request = put(vec![meter("tokens", "tokens", "+2")]);
    request.expected_revision = "+7".to_owned();
    let input =
        prepare_put_account(&request, 50, "api".to_owned(), "usr".to_owned(), b"wire").unwrap();
    assert_eq!(input.caller, "api");
    assert_eq!(input.actor, "usr");
    assert_eq!(input.organization_id, "org_1");
    assert_eq!(input.account_id, "account_1");
    assert_eq!(input.currency, "USD");
    assert_eq!(input.status, AccountStatus::Active);
    assert_eq!(input.expected_revision, 7);
    assert_eq!(input.idempotency_key, "account-create");
    assert_eq!(input.request_hash, request_hash(b"wire"));
    assert_eq!(input.meters, vec![meter("tokens", "tokens", "2")]);
}

#[test]
fn every_part_of_a_put_is_checked() {
    let good = || put(vec![meter("tokens", "tokens", "2")]);
    assert!(!put_refused(&good()));
    let mut request = good();
    request.organization_id = String::new();
    assert!(put_refused(&request));
    let mut request = good();
    request.account_id = "a\u{0}".to_owned();
    assert!(put_refused(&request));
    let mut request = good();
    request.scope_kind = "k".repeat(129);
    assert!(put_refused(&request));
    let mut request = good();
    request.scope_id = " ".to_owned();
    assert!(put_refused(&request));
    let mut request = good();
    request.subject = String::new();
    assert!(put_refused(&request));
    let mut request = good();
    request.currency = "usd".to_owned();
    assert!(put_refused(&request));
    for revision in ["-1", "one", "", "9223372036854775808"] {
        let mut request = good();
        request.expected_revision = revision.to_owned();
        assert!(put_refused(&request));
    }
    let mut request = good();
    request.idempotency_key = "k".repeat(201);
    assert!(put_refused(&request));
    assert!(put_refused(&put(Vec::new())));
}

#[test]
fn reads_need_ids() {
    let request = |organization: &str, account: &str| GetAccountRequest {
        organization_id: organization.to_owned(),
        account_id: account.to_owned(),
    };
    assert_eq!(check_get_account(&request("org_1", "account_1")), Ok(()));
    assert_eq!(
        check_get_account(&request("", "account_1")),
        Err(BillingError::InvalidRequest)
    );
    assert_eq!(
        check_get_account(&request("org_1", " ")),
        Err(BillingError::InvalidRequest)
    );
    assert_eq!(
        check_get_period(&GetPeriodRequest {
            organization_id: "org_1".to_owned(),
            period_id: "period_1".to_owned(),
        }),
        Ok(())
    );
    assert_eq!(
        check_get_period(&GetPeriodRequest {
            organization_id: "org_1".to_owned(),
            period_id: String::new(),
        }),
        Err(BillingError::InvalidRequest)
    );
    assert_eq!(
        check_inspect_delivery(&InspectDeliveryRequest {
            organization_id: "org_1".to_owned(),
            delivery_id: "billing_delivery_1".to_owned(),
        }),
        Ok(())
    );
    assert_eq!(
        check_inspect_delivery(&InspectDeliveryRequest {
            organization_id: String::new(),
            delivery_id: "billing_delivery_1".to_owned(),
        }),
        Err(BillingError::InvalidRequest)
    );
}

#[test]
fn pages_are_bounded() {
    for (limit, cursor, accepted) in [
        (0, None, false),
        (1, None, true),
        (200, Some("account_1"), true),
        (201, None, false),
        (-1, None, false),
        (10, Some(""), false),
    ] {
        let wanted = if accepted {
            Ok(())
        } else {
            Err(BillingError::InvalidRequest)
        };
        assert_eq!(
            check_list_accounts(&ListAccountsRequest {
                organization_id: "org_1".to_owned(),
                cursor: cursor.map(str::to_owned),
                limit,
            }),
            wanted
        );
        assert_eq!(
            check_list_periods(&ListPeriodsRequest {
                organization_id: "org_1".to_owned(),
                account_id: "account_1".to_owned(),
                cursor: cursor.map(str::to_owned),
                limit,
            }),
            wanted
        );
    }
    assert_eq!(
        check_list_periods(&ListPeriodsRequest {
            organization_id: "org_1".to_owned(),
            account_id: String::new(),
            cursor: None,
            limit: 1,
        }),
        Err(BillingError::InvalidRequest)
    );
}

#[test]
fn windows_are_instants_in_order() {
    assert_eq!(
        check_close_period(&close()),
        Ok(CloseWindow {
            period_start: 1_700_000_000_000_000_000,
            period_end: 1_700_003_600_000_000_000,
            expected_account_revision: 1,
        })
    );
    let mut request = close();
    request.period_end = request.period_start.clone();
    assert_eq!(check_close_period(&request), Err(BillingError::InvalidRequest));
    let mut request = close();
    request.period_start = "yesterday".to_owned();
    assert_eq!(check_close_period(&request), Err(BillingError::InvalidRequest));
    for revision in ["0", "-1", "", "x"] {
        let mut request = close();
        request.expected_account_revision = revision.to_owned();
        assert_eq!(check_close_period(&request), Err(BillingError::InvalidRequest));
    }
    let mut request = close();
    request.period_id = String::new();
    assert_eq!(check_close_period(&request), Err(BillingError::InvalidRequest));
    let mut request = close();
    request.idempotency_key = String::new();
    assert_eq!(check_close_period(&request), Err(BillingError::InvalidRequest));
}

#[test]
fn a_window_needs_both_instants() {
    assert_eq!(
        window_between(&close(), Some(5), Some(6)),
        Ok(CloseWindow {
            period_start: 5,
            period_end: 6,
            expected_account_revision: 1,
        })
    );
    assert_eq!(
        window_between(&close(), None, Some(6)),
        Err(BillingError::InvalidRequest)
    );
    assert_eq!(
        window_between(&close(), Some(5), None),
        Err(BillingError::InvalidRequest)
    );
    assert_eq!(
        window_between(&close(), Some(6), Some(5)),
        Err(BillingError::InvalidRequest)
    );
}

#[test]
fn an_accepted_resolution_is_handed_to_storage() {
    let input =
        prepare_resolve_delivery(&resolve(), "api".to_owned(), "usr".to_owned(), b"wire").unwrap();
    assert_eq!(input.caller, "api");
    assert_eq!(input.actor, "usr");
    assert_eq!(input.delivery_id, "billing_delivery_1");
    assert_eq!(input.resolution, Resolution::Delivered);
    assert_eq!(input.provider_reference, Some("provider-event-1".to_owned()));
    assert_eq!(input.reason, "confirmed by the provider");
    assert_eq!(input.request_hash, request_hash(b"wire"));
    let mut request = resolve();
    request.provider_reference = Some(None);
    let input =
        prepare_resolve_delivery(&request, "api".to_owned(), "usr".to_owned(), b"wire").unwrap();
    assert_eq!(input.provider_reference, None);
}

#[test]
fn every_part_of_a_resolution_is_checked() {
    assert!(!resolve_refused(&resolve()));
    let mut request = resolve();
    request.organization_id = String::new();
    assert!(resolve_refused(&request));
    let mut request = resolve();
    request.delivery_id = String::new();
    assert!(resolve_refused(&request));
    let mut request = resolve();
    request.reason = "r".repeat(2_001);
    assert!(resolve_refused(&request));
    let mut request = resolve();
    request.reason = "r".repeat(2_000);
    assert!(!resolve_refused(&request));
    let mut request = resolve();
    request.idempotency_key = " ".to_owned();
    assert!(resolve_refused(&request));
    let mut request = resolve();
    request.provider_reference = Some(Some(String::new()));
    assert!(resolve_refused(&request));
    let mut request = resolve();
    request.provider_reference = None;
    assert!(!resolve_refused(&request));
}
