use usage_billing::error::{DomainFailure, StorageError, StorageErrorOf};
use usage_billing::input::{ClosePeriod, Completion, PutAccount, ResolveDelivery};
use usage_billing::instant::{stored_instant, FIRST_SHOWN, LAST_SHOWN};
use usage_billing::model::{
    AccountStatus, DeliveryStatus, MeterView, PeriodStatus, Resolution, SnapshotLine,
};
use usage_billing::store::{check_fingerprint, BillingStore};

const SECOND: i128 = 1_000_000_000;
const START: i128 = 1_700_000_000 * SECOND;
const HOUR: i128 = 3_600 * SECOND;

fn meter(mapping_id: &str) -> MeterView {
    MeterView {
        mapping_id: mapping_id.to_owned(),
        source_scope_kind: "organization".to_owned(),
        source_scope_id: "org_1".to_owned(),
        source_subject: "org_1".to_owned(),
        source_meter: mapping_id.to_owned(),
        sink_meter: format!("ai_{mapping_id}"),
        unit_price_minor: "2".to_owned(),
    }
}

fn put(account_id: &str, expected_revision: i64, key: &str, hash: u8) -> PutAccount {
    PutAccount {
        caller: "billing-api".to_owned(),
        actor: "usr_billing".to_owned(),
        organization_id: "org_1".to_owned(),
        account_id: account_id.to_owned(),
        scope_kind: "organization".to_owned(),
        scope_id: "org_1".to_owned(),
        subject: "org_1".to_owned(),
        currency: "USD".to_owned(),
        status: AccountStatus::Active,
        expected_revision,
        idempotency_key: key.to_owned(),
        request_hash: vec![hash],
        meters: vec![meter("tokens")],
    }
}

fn line(delivery_id: &str, mapping_id: &str) -> SnapshotLine {
    SnapshotLine {
        delivery_id: delivery_id.to_owned(),
        mapping_id: mapping_id.to_owned(),
        source_meter: mapping_id.to_owned(),
        sink_meter: format!("ai_{mapping_id}"),
        quantity: "10".to_owned(),
        usage_revision: 7,
        unit_price_minor: "2".to_owned(),
        amount_minor: "20".to_owned(),
    }
}

fn close(period_id: &str, start: i128, end: i128, lines: Vec<SnapshotLine>) -> ClosePeriod {
    ClosePeriod {
        caller: "billing-api".to_owned(),
        actor: "usr_billing".to_owned(),
        organization_id: "org_1".to_owned(),
        account_id: "account_1".to_owned(),
        period_id: period_id.to_owned(),
        period_start: start,
        period_end: end,
        expected_account_revision: 1,
        idempotency_key: format!("close-{period_id}"),
        request_hash: vec![2],
        total_amount_minor: "20".to_owned(),
        lines,
    }
}

fn completion(
    delivery_id: &str,
    worker_id: &str,
    attempt: i32,
    status: DeliveryStatus,
) -> Completion {
    Completion {
        delivery_id: delivery_id.to_owned(),
        worker_id: worker_id.to_owned(),
        attempt,
        status,
        provider_reference: None,
        failure_code: Some("code".to_owned()),
    }
}

fn resolution(delivery_id: &str, resolution: Resolution, key: &str) -> ResolveDelivery {
    ResolveDelivery {
        caller: "billing-api".to_owned(),
        actor: "usr_billing".to_owned(),
        organization_id: "org_1".to_owned(),
        delivery_id: delivery_id.to_owned(),
        resolution,
        provider_reference: None,
        reason: "looked into it".to_owned(),
        idempotency_key: key.to_owned(),
        request_hash: vec![3],
    }
}

fn refused<T>(failure: DomainFailure) -> Result<T, StorageError> {
    Err(StorageErrorOf::Domain(failure))
}

fn nobody() -> Vec<String> {
    Vec::new()
}

/// One account and one period of two lines.
fn stocked() -> BillingStore {
    let mut store = BillingStore::new();
    store
        .put_account(&put("account_1", 0, "account-create", 1), START)
        .unwrap();
    store
        .close_period(
            &close(
                "period_1",
                START,
                START + HOUR,
                vec![line("delivery_b", "b"), line("delivery_a", "a")],
            ),
            START + HOUR,
        )
        .unwrap();
    store
}

#[test]
fn account_period_and_delivery_survive_restart() {
    let mut store = BillingStore::new();
    let account = store
        .put_account(&put("account_1", 0, "account-create", 1), START)
        .unwrap();
    assert_eq!(account.revision, "1");
    let start = START;
    let end = START + HOUR;
    let mut input = close("period_1", start, end, vec![line("billing_delivery_1", "tokens")]);
    input.idempotency_key = "period-close".to_owned();
    store.close_period(&input, end).unwrap();
    let (accounts, periods, commands) = store.into_rows();

    let mut restarted = BillingStore::from_rows(accounts, periods, commands).unwrap();
    let claim = restarted
        .claim_next_delivery("billing-worker", 60, 5, &nobody(), end)
        .unwrap()
        .unwrap();
    assert_eq!(claim.quantity, "10");
    restarted
        .complete_delivery(
            &Completion {
                delivery_id: claim.delivery_id.clone(),
                worker_id: "billing-worker".to_owned(),
                attempt: claim.attempt,
                status: DeliveryStatus::Delivered,
                provider_reference: Some("provider-event-1".to_owned()),
                failure_code: None,
            },
            end,
        )
        .unwrap();
    let period = restarted.get_period("org_1", "period_1").unwrap();
    assert_eq!(period.status.name(), "delivered");
    assert_eq!(
        period.lines[0].provider_reference.as_deref(),
        Some("provider-event-1")
    );
}

#[test]
fn rows_that_repeat_a_key_are_no_store() {
    let (mut accounts, periods, commands) = stocked().into_rows();
    let (more, _, _) = stocked().into_rows();
    accounts.extend(more);
    assert!(BillingStore::from_rows(accounts, periods, commands).is_none());
    let (accounts, mut periods, commands) = stocked().into_rows();
    let (_, mut more, _) = stocked().into_rows();
    more[0].period_id = "period_2".to_owned();
    periods.extend(more);
    assert!(BillingStore::from_rows(accounts, periods, commands).is_none());
    let (accounts, periods, mut commands) = stocked().into_rows();
    let (_, _, more) = stocked().into_rows();
    commands.extend(more);
    assert!(BillingStore::from_rows(accounts, periods, commands).is_none());
}

#[test]
fn accounts_are_shown_as_they_were_put() {
    let mut store = BillingStore::new();
    let mut input = put("account_1", 0, "account-create", 1);
    input.meters = vec![meter("tokens"), meter("Calls"), meter("calls")];
    let view = store.put_account(&input, START).unwrap();
    assert_eq!(view.revision, "1");
    assert_eq!(view.status, AccountStatus::Active);
    assert_eq!(view.created_at, "2023-11-14T22:13:20Z");
    assert_eq!(view.updated_at, "2023-11-14T22:13:20Z");
    assert_eq!(
        view.meters,
        vec![meter("Calls"), meter("calls"), meter("tokens")]
    );
    assert_eq!(store.get_account("org_1", "account_1"), Ok(view));
    assert_eq!(
        store.get_account("org_2", "account_1"),
        refused(DomainFailure::NotFound)
    );
    assert_eq!(
        store.get_account("org_1", "account_2"),
        refused(DomainFailure::NotFound)
    );
}

#[test]
fn the_same_command_is_answered_alike_and_not_repeated() {
    let mut store = BillingStore::new();
    let first = store
        .put_account(&put("account_1", 0, "account-create", 1), START)
        .unwrap();
    let mut update = put("account_1", 1, "account-update", 1);
    update.currency = "EUR".to_owned();
    assert_eq!(
        store.put_account(&update, START + SECOND).unwrap().revision,
        "2"
    );
    assert_eq!(
        store.put_account(&put("account_1", 0, "account-create", 1), START + HOUR),
        Ok(first)
    );
    assert_eq!(store.get_account("org_1", "account_1").unwrap().revision, "2");
    assert_eq!(
        store.put_account(&put("account_1", 0, "account-create", 9), START + HOUR),
        refused(DomainFailure::IdempotencyConflict)
    );
}

#[test]
fn idempotency_keys_are_those_of_caller_and_actor() {
    let mut store = BillingStore::new();
    store
        .put_account(&put("account_1", 0, "same-key", 1), START)
        .unwrap();
    let mut other = put("account_2", 0, "same-key", 9);
    other.actor = "usr_other".to_owned();
    assert_eq!(store.put_account(&other, START).unwrap().account_id, "account_2");
    let mut another = put("account_3", 0, "same-key", 9);
    another.caller = "billing-console".to_owned();
    assert_eq!(
        store.put_account(&another, START).unwrap().account_id,
        "account_3"
    );
}

#[test]
fn accounts_change_at_the_expected_revision_only() {
    let mut store = BillingStore::new();
    assert_eq!(
        store.put_account(&put("account_1", 1, "too-early", 1), START),
        refused(DomainFailure::RevisionConflict)
    );
    store
        .put_account(&put("account_1", 0, "create", 1), START)
        .unwrap();
    assert_eq!(
        store.put_account(&put("account_1", 0, "second-writer", 1), START),
        refused(DomainFailure::RevisionConflict)
    );
    let mut foreign = put("account_1", 1, "foreign", 1);
    foreign.organization_id = "org_2".to_owned();
    assert_eq!(
        store.put_account(&foreign, START),
        refused(DomainFailure::NotFound)
    );
    let mut update = put("account_1", 1, "update", 1);
    update.meters = vec![meter("calls")];
    update.status = AccountStatus::Disabled;
    let view = store.put_account(&update, START + SECOND).unwrap();
    assert_eq!(view.revision, "2");
    assert_eq!(view.created_at, "2023-11-14T22:13:20Z");
    assert_eq!(view.updated_at, "2023-11-14T22:13:21Z");
    assert_eq!(view.meters, vec![meter("calls")]);
}

#[test]
fn a_period_records_the_account_and_its_lines() {
    let store = stocked();
    let period = store.get_period("org_1", "period_1").unwrap();
    assert_eq!(period.account_id, "account_1");
    assert_eq!(period.period_start, "2023-11-14T22:13:20Z");
    assert_eq!(period.period_end, "2023-11-14T23:13:20Z");
    assert_eq!(period.currency, "USD");
    assert_eq!(period.status, PeriodStatus::Pending);
    assert_eq!(period.account_revision, "1");
    assert_eq!(period.total_amount_minor, "20");
    assert_eq!(period.lines.len(), 2);
    assert_eq!(period.lines[0].mapping_id, "a");
    assert_eq!(period.lines[1].mapping_id, "b");
    assert_eq!(period.lines[0].status, DeliveryStatus::Pending);
    assert_eq!(period.lines[0].attempts, 0);
    assert_eq!(period.lines[0].usage_revision, 7);
    assert_eq!(
        store.get_period("org_2", "period_1"),
        refused(DomainFailure::NotFound)
    );
}

#[test]
fn an_empty_period_is_delivered() {
    let mut store = stocked();
    let input = close("period_2", START + HOUR, START + 2 * HOUR, Vec::new());
    let view = store.close_period(&input, START + 2 * HOUR).unwrap();
    assert_eq!(view.status, PeriodStatus::Delivered);
    assert_eq!(store.close_period(&input, START + 3 * HOUR), Ok(view));
}

#[test]
fn periods_of_an_account_do_not_overlap() {
    let mut store = stocked();
    for (start, end) in [
        (START - HOUR, START + 1_000),
        (START + HOUR - 1_000, START + 2 * HOUR),
        (START + SECOND, START + 2 * SECOND),
        (START - HOUR, START + 2 * HOUR),
    ] {
        assert_eq!(
            store.close_period(&close("period_2", start, end, Vec::new()), START),
            refused(DomainFailure::PeriodConflict)
        );
    }
    let mut before = close("period_0", START - HOUR, START, Vec::new());
    assert!(store.close_period(&before, START).is_ok());
    before.period_id = "period_1".to_owned();
    before.idempotency_key = "again".to_owned();
    before.period_start = START + HOUR;
    before.period_end = START + 2 * HOUR;
    assert_eq!(
        store.close_period(&before, START),
        refused(DomainFailure::PeriodConflict)
    );
}

#[test]
fn windows_are_kept_in_whole_microseconds() {
    let mut store = stocked();
    let input = close("period_2", START + HOUR + 999, START + 2 * HOUR + 1_999, Vec::new());
    let view = store.close_period(&input, START).unwrap();
    assert_eq!(view.period_start, "2023-11-14T23:13:20Z");
    assert_eq!(view.period_end, "2023-11-15T00:13:20.000001Z");
    assert_eq!(stored_instant(-1_999), -1_000);
    assert_eq!(stored_instant(1_001), 2_000);
}

#[test]
fn periods_need_an_active_account_at_the_expected_revision() {
    let mut store = stocked();
    let mut unknown = close("period_2", START + HOUR, START + 2 * HOUR, Vec::new());
    unknown.account_id = "account_9".to_owned();
    assert_eq!(
        store.close_period(&unknown, START),
        refused(DomainFailure::NotFound)
    );
    let mut foreign = close("period_2", START + HOUR, START + 2 * HOUR, Vec::new());
    foreign.organization_id = "org_2".to_owned();
    assert_eq!(
        store.close_period(&foreign, START),
        refused(DomainFailure::NotFound)
    );
    let mut stale = close("period_2", START + HOUR, START + 2 * HOUR, Vec::new());
    stale.expected_account_revision = 2;
    assert_eq!(
        store.close_period(&stale, START),
        refused(DomainFailure::RevisionConflict)
    );
    let mut disable = put("account_1", 1, "disable", 1);
    disable.status = AccountStatus::Disabled;
    store.put_account(&disable, START).unwrap();
    let mut current = close("period_2", START + HOUR, START + 2 * HOUR, Vec::new());
    current.expected_account_revision = 2;
    assert_eq!(
        store.close_period(&current, START),
        refused(DomainFailure::AccountDisabled)
    );
}

#[test]
fn delivery_ids_are_stored_once() {
    let mut store = stocked();
    let input = close(
        "period_2",
        START + HOUR,
        START + 2 * HOUR,
        vec![line("delivery_a", "a")],
    );
    assert_eq!(
        store.close_period(&input, START),
        Err(StorageErrorOf::Database {
            operation: "insert billing period line".to_owned(),
        })
    );
    assert_eq!(
        store.get_period("org_1", "period_2"),
        refused(DomainFailure::NotFound)
    );
}

#[test]
fn claims_take_the_earliest_line_and_hand_out_what_was_recorded() {
    let mut store = stocked();
    let now = START + 2 * HOUR;
    let first = store
        .claim_next_delivery("worker-1", 60, 5, &nobody(), now)
        .unwrap()
        .unwrap();
    assert_eq!(first.delivery_id, "delivery_a");
    assert_eq!(first.period_id, "period_1");
    assert_eq!(first.scope_kind, "organization");
    assert_eq!(first.scope_id, "org_1");
    assert_eq!(first.subject, "org_1");
    assert_eq!(first.sink_meter, "ai_a");
    assert_eq!(first.quantity, "10");
    assert_eq!(first.occurred_at, "2023-11-14T23:13:20Z");
    assert_eq!(first.attempt, 1);
    let second = store
        .claim_next_delivery("worker-2", 60, 5, &nobody(), now)
        .unwrap()
        .unwrap();
    assert_eq!(second.delivery_id, "delivery_b");
    assert_eq!(
        store.claim_next_delivery("worker-3", 60, 5, &nobody(), now),
        Ok(None)
    );
}

#[test]
fn held_lines_are_passed_over() {
    let mut store = stocked();
    let held = vec!["delivery_a".to_owned()];
    let claim = store
        .claim_next_delivery("worker-1", 60, 5, &held, START + 2 * HOUR)
        .unwrap()
        .unwrap();
    assert_eq!(claim.delivery_id, "delivery_b");
}

#[test]
fn a_stale_worker_cannot_complete_a_newer_attempt() {
    let mut store = stocked();
    let held = vec!["delivery_b".to_owned()];
    let now = START + 2 * HOUR;
    let first = store
        .claim_next_delivery("worker-1", 60, 5, &held, now)
        .unwrap()
        .unwrap();
    assert_eq!(
        store.claim_next_delivery("worker-2", 60, 5, &held, now + 59 * SECOND),
        Ok(None)
    );
    let second = store
        .claim_next_delivery("worker-2", 60, 5, &held, now + 60 * SECOND)
        .unwrap()
        .unwrap();
    assert_eq!(second.delivery_id, first.delivery_id);
    assert_eq!(second.attempt, first.attempt + 1);
    for (worker, attempt) in [("worker-1", 1), ("worker-1", 2), ("worker-2", 1)] {
        assert_eq!(
            store.complete_delivery(
                &completion("delivery_a", worker, attempt, DeliveryStatus::Failed),
                now + 61 * SECOND
            ),
            refused(DomainFailure::DeliveryNotFound)
        );
    }
    assert_eq!(
        store.complete_delivery(
            &completion("delivery_a", "worker-2", 2, DeliveryStatus::Failed),
            now + 61 * SECOND
        ),
        Ok(())
    );
    assert_eq!(
        store.complete_delivery(
            &completion("delivery_a", "worker-2", 2, DeliveryStatus::Failed),
            now + 62 * SECOND
        ),
        refused(DomainFailure::DeliveryNotFound)
    );
}

#[test]
fn attempts_are_bounded() {
    let mut store = stocked();
    let held = vec!["delivery_b".to_owned()];
    let now = START + 2 * HOUR;
    let claim = store
        .claim_next_delivery("worker-1", 60, 1, &held, now)
        .unwrap()
        .unwrap();
    store
        .complete_delivery(
            &completion("delivery_a", "worker-1", claim.attempt, DeliveryStatus::Unknown),
            now,
        )
        .unwrap();
    store
        .resolve_delivery(&resolution("delivery_a", Resolution::Retry, "retry"), now)
        .unwrap();
    assert_eq!(
        store.claim_next_delivery("worker-1", 60, 1, &held, now + SECOND),
        Ok(None)
    );
    let view = store.inspect_delivery("org_1", "delivery_a").unwrap();
    assert_eq!(view.status, DeliveryStatus::Failed);
    assert_eq!(view.failure_code.as_deref(), Some("attempts_exhausted"));
    assert_eq!(view.attempts, 1);
    let period = store.get_period("org_1", "period_1").unwrap();
    assert_eq!(period.status, PeriodStatus::Failed);
}

#[test]
fn the_status_of_a_period_is_the_worst_of_its_lines() {
    let mut store = stocked();
    let now = START + 2 * HOUR;
    let status = |store: &BillingStore| store.get_period("org_1", "period_1").unwrap().status;
    let first = store
        .claim_next_delivery("worker", 60, 5, &nobody(), now)
        .unwrap()
        .unwrap();
    assert_eq!(status(&store), PeriodStatus::Pending);
    store
        .complete_delivery(
            &completion(&first.delivery_id, "worker", 1, DeliveryStatus::Failed),
            now,
        )
        .unwrap();
    assert_eq!(status(&store), PeriodStatus::Failed);
    let second = store
        .claim_next_delivery("worker", 60, 5, &nobody(), now)
        .unwrap()
        .unwrap();
    store
        .complete_delivery(
            &completion(&second.delivery_id, "worker", 1, DeliveryStatus::Unknown),
            now,
        )
        .unwrap();
    assert_eq!(status(&store), PeriodStatus::Unknown);
    let mut confirm = resolution(&second.delivery_id, Resolution::Delivered, "confirm-second");
    confirm.provider_reference = Some("provider-event-2".to_owned());
    store.resolve_delivery(&confirm, now).unwrap();
    assert_eq!(status(&store), PeriodStatus::Failed);
    store
        .resolve_delivery(&resolution(&first.delivery_id, Resolution::Retry, "retry-first"), now)
        .unwrap();
    assert_eq!(status(&store), PeriodStatus::Pending);
    let again = store
        .claim_next_delivery("worker", 60, 5, &nobody(), now)
        .unwrap()
        .unwrap();
    assert_eq!(again.attempt, 2);
    store
        .complete_delivery(
            &completion(&again.delivery_id, "worker", 2, DeliveryStatus::Delivered),
            now,
        )
        .unwrap();
    assert_eq!(status(&store), PeriodStatus::Delivered);
}

#[test]
fn only_uncertain_deliveries_are_resolved() {
    let mut store = stocked();
    let now = START + 2 * HOUR;
    assert_eq!(
        store.resolve_delivery(&resolution("delivery_a", Resolution::Retry, "early"), now),
        refused(DomainFailure::InvalidResolution)
    );
    assert_eq!(
        store.resolve_delivery(&resolution("delivery_x", Resolution::Retry, "absent"), now),
        refused(DomainFailure::DeliveryNotFound)
    );
    let claim = store
        .claim_next_delivery("worker", 60, 5, &nobody(), now)
        .unwrap()
        .unwrap();
    store
        .complete_delivery(
            &completion(&claim.delivery_id, "worker", 1, DeliveryStatus::Unknown),
            now,
        )
        .unwrap();
    assert_eq!(
        store.resolve_delivery(&resolution("delivery_a", Resolution::Delivered, "bare"), now),
        refused(DomainFailure::InvalidResolution)
    );
    let mut foreign = resolution("delivery_a", Resolution::Retry, "foreign");
    foreign.organization_id = "org_2".to_owned();
    assert_eq!(
        store.resolve_delivery(&foreign, now),
        refused(DomainFailure::DeliveryNotFound)
    );
    let failed = resolution("delivery_a", Resolution::Failed, "give-up");
    let view = store.resolve_delivery(&failed, now).unwrap();
    assert_eq!(view.status, DeliveryStatus::Failed);
    assert_eq!(view.failure_code.as_deref(), Some("looked into it"));
    assert_eq!(view.provider_reference, None);
    assert_eq!(view.attempts, 1);
    assert_eq!(store.inspect_delivery("org_1", "delivery_a"), Ok(view));
    let replayed = store.resolve_delivery(&failed, now + HOUR).unwrap();
    assert_eq!(replayed.updated_at, "2023-11-15T00:13:20Z");
}

#[test]
fn deliveries_are_shown_to_their_organization() {
    let store = stocked();
    let view = store.inspect_delivery("org_1", "delivery_b").unwrap();
    assert_eq!(view.account_id, "account_1");
    assert_eq!(view.period_id, "period_1");
    assert_eq!(view.mapping_id, "b");
    assert_eq!(view.status, DeliveryStatus::Pending);
    assert_eq!(view.updated_at, "2023-11-14T23:13:20Z");
    assert_eq!(
        store.inspect_delivery("org_2", "delivery_b"),
        refused(DomainFailure::DeliveryNotFound)
    );
}

#[test]
fn following_the_cursor_lists_every_account_once() {
    let mut store = BillingStore::new();
    for name in ["delta", "alpha", "charlie", "bravo", "echo"] {
        store.put_account(&put(name, 0, name, 1), START).unwrap();
    }
    let mut foreign = put("aaa", 0, "foreign", 1);
    foreign.organization_id = "org_2".to_owned();
    store.put_account(&foreign, START).unwrap();
    let mut seen: Vec<String> = Vec::new();
    let mut cursor: Option<String> = None;
    let mut pages = 0;
    loop {
        let (page, next) = store.list_accounts("org_1", &cursor, 2).unwrap();
        pages += 1;
        for account in page {
            seen.push(account.account_id);
        }
        match next {
            Some(last) => {
                assert_eq!(seen.last(), Some(&last));
                cursor = Some(last);
            }
            None => break,
        }
    }
    assert_eq!(pages, 3);
    assert_eq!(seen, vec!["alpha", "bravo", "charlie", "delta", "echo"]);
    let (all, next) = store.list_accounts("org_1", &None, 5).unwrap();
    assert_eq!(all.len(), 5);
    assert_eq!(next, None);
    let (none, next) = store.list_accounts("org_3", &None, 5).unwrap();
    assert_eq!(none, Vec::new());
    assert_eq!(next, None);
}

#[test]
fn periods_are_listed_by_account() {
    let mut store = stocked();
    for number in 2..5 {
        let start = START + number * HOUR;
        store
            .close_period(
                &close(&format!("period_{number}"), start, start + HOUR, Vec::new()),
                start,
            )
            .unwrap();
    }
    let (page, next) = store.list_periods("org_1", "account_1", &None, 3).unwrap();
    let ids: Vec<&str> = page.iter().map(|period| period.period_id.as_str()).collect();
    assert_eq!(ids, vec!["period_1", "period_2", "period_3"]);
    assert_eq!(next.as_deref(), Some("period_3"));
    let (page, next) = store.list_periods("org_1", "account_1", &next, 3).unwrap();
    assert_eq!(page.len(), 1);
    assert_eq!(page[0].period_id, "period_4");
    assert_eq!(next, None);
    let (page, _) = store.list_periods("org_1", "account_2", &None, 3).unwrap();
    assert_eq!(page, Vec::new());
}

#[test]
fn instants_without_text_cannot_be_shown() {
    let mut store = BillingStore::new();
    let result = store.put_account(&put("account_1", 0, "create", 1), i128::MAX);
    assert!(matches!(result, Err(StorageErrorOf::InvalidStored(_))));
    assert_eq!(
        store.get_account("org_1", "account_1"),
        refused(DomainFailure::NotFound)
    );
}

#[test]
fn instants_of_four_digit_years_are_shown() {
    for (now, text) in [
        (FIRST_SHOWN, "0000-01-01T00:00:00Z"),
        (LAST_SHOWN, "9999-12-31T23:59:59.999999999Z"),
        (0, "1970-01-01T00:00:00Z"),
        (START + 1_500, "2023-11-14T22:13:20.0000015Z"),
    ] {
        let mut store = BillingStore::new();
        let view = store
            .put_account(&put("account_1", 0, "create", 1), now)
            .unwrap();
        assert_eq!(view.created_at, text);
    }
    for now in [FIRST_SHOWN - 1, LAST_SHOWN + 1] {
        let mut store = BillingStore::new();
        let result = store.put_account(&put("account_1", 0, "create", 1), now);
        assert!(matches!(result, Err(StorageErrorOf::InvalidStored(_))));
    }
}

#[test]
fn names_are_the_stored_ones() {
    assert_eq!(AccountStatus::Active.name(), "active");
    assert_eq!(AccountStatus::Disabled.name(), "disabled");
    assert_eq!(DeliveryStatus::Pending.name(), "pending");
    assert_eq!(DeliveryStatus::InFlight.name(), "in_flight");
    assert_eq!(DeliveryStatus::Delivered.name(), "delivered");
    assert_eq!(DeliveryStatus::Failed.name(), "failed");
    assert_eq!(DeliveryStatus::Unknown.name(), "unknown");
    assert_eq!(PeriodStatus::Unknown.name(), "unknown");
}

#[test]
fn fingerprints_tell_requests_apart() {
    assert_eq!(check_fingerprint(&vec![1, 2], &vec![1, 2]), Ok(()));
    assert_eq!(
        check_fingerprint(&vec![1, 2], &vec![1, 3]),
        refused(DomainFailure::IdempotencyConflict)
    );
    assert_eq!(
        check_fingerprint(&vec![1, 2], &vec![1]),
        refused(DomainFailure::IdempotencyConflict)
    );
}
