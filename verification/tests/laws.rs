use usage_billing::error::{DomainFailure, Reply, StorageErrorOf};
use usage_billing::input::{ClosePeriod, Completion, PutAccount, ResolveDelivery};
use usage_billing::instant::stored_instant;
use usage_billing::model::{
    AccountStatus, CommandKey, DeliveryStatus, MeterView, Operation, PeriodStatus, PeriodView,
    Resolution, Response, SnapshotLine,
};
use usage_billing::order::{sort_rows, text_before};
use usage_billing::reconcile::{begin_attempt, ReconcileStep, SinkOutcome};
use usage_billing::requests::{check_close_period, ClosePeriodRequest};
use usage_billing::snapshot::{begin_close, begin_snapshot, CloseStep, SnapshotStep, Usage};
use usage_billing::store::{refresh_period_status, BillingStore};

const SECOND: i128 = 1_000_000_000;
const START: i128 = 1_700_000_000 * SECOND;
const HOUR: i128 = 3_600 * SECOND;

fn meter(mapping_id: &str) -> MeterView {
    MeterView {
        mapping_id: mapping_id.to_owned(),
        source_scope_kind: "organization".to_owned(),
        source_scope_id: "org_1".to_owned(),
        source_subject: "org_1".to_owned(),
        source_meter: mapping_id.to_owned(),
        sink_meter: mapping_id.to_owned(),
        unit_price_minor: "2".to_owned(),
    }
}

fn put(account_id: &str, expected_revision: i64, key: &str) -> PutAccount {
    PutAccount {
        caller: "billing-api".to_owned(),
        actor: "usr_billing".to_owned(),
        organization_id: "org_1".to_owned(),
        account_id: account_id.to_owned(),
        scope_kind: "organization".to_owned(),
        scope_id: "org_1".to_owned(),
        subject: "org_1".to_owned(),
        currency: "USD".to_owned(),
        status: AccountStatus::Active,
        expected_revision,
        idempotency_key: key.to_owned(),
        request_hash: vec![1],
        meters: vec![meter("b"), meter("a")],
    }
}

fn close(period_id: &str, start: i128, deliveries: &[&str]) -> ClosePeriod {
    ClosePeriod {
        caller: "billing-api".to_owned(),
        actor: "usr_billing".to_owned(),
        organization_id: "org_1".to_owned(),
        account_id: "account_1".to_owned(),
        period_id: period_id.to_owned(),
        period_start: start,
        period_end: start + HOUR,
        expected_account_revision: 1,
        idempotency_key: format!("close-{period_id}"),
        request_hash: vec![2],
        total_amount_minor: "40".to_owned(),
        lines: deliveries
            .iter()
            .map(|delivery_id| SnapshotLine {
                delivery_id: (*delivery_id).to_owned(),
                mapping_id: (*delivery_id).to_owned(),
                source_meter: "tokens".to_owned(),
                sink_meter: "ai_tokens".to_owned(),
                quantity: "10".to_owned(),
                usage_revision: 7,
                unit_price_minor: "2".to_owned(),
                amount_minor: "20".to_owned(),
            })
            .collect(),
    }
}

fn complete(delivery_id: &str, attempt: i32, status: DeliveryStatus) -> Completion {
    Completion {
        delivery_id: delivery_id.to_owned(),
        worker_id: "worker".to_owned(),
        attempt,
        status,
        provider_reference: None,
        failure_code: None,
    }
}

fn resolve(delivery_id: &str, resolution: Resolution, key: &str) -> ResolveDelivery {
    ResolveDelivery {
        caller: "billing-api".to_owned(),
        actor: "usr_billing".to_owned(),
        organization_id: "org_1".to_owned(),
        delivery_id: delivery_id.to_owned(),
        resolution,
        provider_reference: Some("provider-event".to_owned()),
        reason: "looked into it".to_owned(),
        idempotency_key: key.to_owned(),
        request_hash: vec![3],
    }
}

fn stocked() -> BillingStore {
    let mut store = BillingStore::new();
    store.put_account(&put("account_1", 0, "create"), START).unwrap();
    store
        .close_period(&close("period_1", START, &["d1", "d2"]), START)
        .unwrap();
    store
}

/// What a period records, without how far its deliveries have come.
fn record(period: &PeriodView) -> Vec<String> {
    let mut parts = vec![
        period.organization_id.clone(),
        period.account_id.clone(),
        period.period_start.clone(),
        period.period_end.clone(),
        period.currency.clone(),
        period.account_revision.clone(),
        period.total_amount_minor.clone(),
        period.created_at.clone(),
    ];
    for line in &period.lines {
        parts.push(line.delivery_id.clone());
        parts.push(line.mapping_id.clone());
        parts.push(line.quantity.clone());
        parts.push(line.usage_revision.to_string());
        parts.push(line.unit_price_minor.clone());
        parts.push(line.amount_minor.clone());
    }
    parts
}

#[test]
fn texts_are_in_strict_order() {
    let texts = ["", "A", "B", "a", "aa", "ab", "b", "\u{e9}", "\u{1f600}"];
    for (i, left) in texts.iter().enumerate() {
        for (j, right) in texts.iter().enumerate() {
            assert_eq!(text_before(left, right), i < j, "{left} {right}");
        }
    }
}

#[test]
fn rows_are_put_in_order_and_none_is_lost() {
    let sorted = sort_rows(vec![meter("c"), meter("a"), meter("d"), meter("b")]);
    assert_eq!(sorted, vec![meter("a"), meter("b"), meter("c"), meter("d")]);
    assert_eq!(sort_rows::<MeterView>(Vec::new()), Vec::new());
}

#[test]
fn kept_instants_stay_in_order() {
    let instants = [
        -2_001, -2_000, -1_999, -1, 0, 1, 999, 1_000, START, START + 1, START + 1_000,
    ];
    for pair in instants.windows(2) {
        assert!(stored_instant(pair[0]) <= stored_instant(pair[1]));
        assert_eq!(stored_instant(pair[1]) % 1_000, 0);
    }
}

#[test]
fn snapshots_outlive_everything_that_happens_to_them() {
    let mut store = stocked();
    let recorded = record(&store.get_period("org_1", "period_1").unwrap());
    let now = START + 2 * HOUR;
    store.put_account(&put("account_1", 1, "update"), now).unwrap();
    store
        .claim_next_delivery("worker", 60, 5, &Vec::new(), now)
        .unwrap();
    store
        .complete_delivery(&complete("d1", 1, DeliveryStatus::Unknown), now)
        .unwrap();
    store
        .resolve_delivery(&resolve("d1", Resolution::Delivered, "confirm"), now)
        .unwrap();
    let period = store.get_period("org_1", "period_1").unwrap();
    assert_eq!(record(&period), recorded);
    assert_eq!(period.lines[0].status, DeliveryStatus::Delivered);
}

#[test]
fn workers_leave_accounts_alone() {
    let mut store = stocked();
    let before = store.get_account("org_1", "account_1").unwrap();
    let now = START + 2 * HOUR;
    store
        .claim_next_delivery("worker", 60, 5, &Vec::new(), now)
        .unwrap();
    store
        .complete_delivery(&complete("d1", 1, DeliveryStatus::Failed), now)
        .unwrap();
    assert_eq!(store.get_account("org_1", "account_1"), Ok(before));
}

#[test]
fn puts_leave_other_accounts_alone() {
    let mut store = stocked();
    let before = store.get_account("org_1", "account_1").unwrap();
    store.put_account(&put("account_2", 0, "other"), START).unwrap();
    assert_eq!(store.get_account("org_1", "account_1"), Ok(before));
}

#[test]
fn delivered_is_final() {
    let mut store = stocked();
    let now = START + 2 * HOUR;
    store
        .claim_next_delivery("worker", 60, 5, &Vec::new(), now)
        .unwrap();
    store
        .complete_delivery(&complete("d1", 1, DeliveryStatus::Delivered), now)
        .unwrap();
    let before = store.inspect_delivery("org_1", "d1").unwrap();
    assert_eq!(
        store.resolve_delivery(&resolve("d1", Resolution::Retry, "retry"), now),
        Err(StorageErrorOf::Domain(DomainFailure::InvalidResolution))
    );
    assert_eq!(
        store.complete_delivery(&complete("d1", 1, DeliveryStatus::Failed), now),
        Err(StorageErrorOf::Domain(DomainFailure::DeliveryNotFound))
    );
    let other = store
        .claim_next_delivery("worker", 60, 5, &Vec::new(), now + HOUR)
        .unwrap()
        .unwrap();
    assert_eq!(other.delivery_id, "d2");
    assert_eq!(store.inspect_delivery("org_1", "d1"), Ok(before));
}

#[test]
fn uncertain_deliveries_wait_for_an_administrator() {
    let mut store = stocked();
    let now = START + 2 * HOUR;
    let claim = store
        .claim_next_delivery("worker", 60, 5, &Vec::new(), now)
        .unwrap();
    let attempt = match begin_attempt(claim, "worker") {
        ReconcileStep::Publish(attempt) => attempt,
        ReconcileStep::Idle(_) => panic!("there was a claim"),
    };
    let settlement = attempt.settled(SinkOutcome::Failed("timed out"));
    let stored = store.complete_delivery(settlement.completion(), now);
    assert!(stored.is_ok());
    assert!(settlement.finish(stored).is_err());
    let before = store.inspect_delivery("org_1", "d1").unwrap();
    assert_eq!(before.status, DeliveryStatus::Unknown);
    assert_eq!(before.failure_code.as_deref(), Some("sink_runtime_failure"));
    assert_eq!(
        store.get_period("org_1", "period_1").unwrap().status,
        PeriodStatus::Unknown
    );
    let held = vec!["d2".to_owned()];
    assert_eq!(
        store.claim_next_delivery("worker", 60, 5, &held, now + 24 * HOUR),
        Ok(None)
    );
    assert_eq!(store.inspect_delivery("org_1", "d1"), Ok(before));
    store
        .resolve_delivery(&resolve("d1", Resolution::Retry, "retry"), now)
        .unwrap();
    let again = store
        .claim_next_delivery("worker", 60, 5, &held, now)
        .unwrap()
        .unwrap();
    assert_eq!(again.attempt, 2);
}

#[test]
fn leases_go_with_attempts() {
    let mut store = stocked();
    let now = START + 2 * HOUR;
    store
        .claim_next_delivery("worker", 60, 5, &Vec::new(), now)
        .unwrap();
    let (accounts, periods, commands) = store.into_rows();
    let claimed = &periods[0].lines[0];
    assert_eq!(claimed.status, DeliveryStatus::InFlight);
    assert_eq!(claimed.lease_owner.as_deref(), Some("worker"));
    assert_eq!(claimed.lease_expires_at, Some(now + 60 * SECOND));
    assert_eq!(periods[0].lines[1].lease_owner, None);
    let mut store = BillingStore::from_rows(accounts, periods, commands).unwrap();
    store
        .complete_delivery(&complete("d1", 1, DeliveryStatus::Failed), now)
        .unwrap();
    let (_, periods, _) = store.into_rows();
    assert_eq!(periods[0].lines[0].lease_owner, None);
    assert_eq!(periods[0].lines[0].lease_expires_at, None);
}

#[test]
fn keys_of_finished_commands_are_not_reused() {
    let mut store = stocked();
    let mut changed = close("period_1", START, &["d1", "d2"]);
    changed.request_hash = vec![9];
    assert_eq!(
        store.close_period(&changed, START),
        Err(StorageErrorOf::Domain(DomainFailure::IdempotencyConflict))
    );
    let now = START + 2 * HOUR;
    store
        .claim_next_delivery("worker", 60, 5, &Vec::new(), now)
        .unwrap();
    store
        .complete_delivery(&complete("d1", 1, DeliveryStatus::Failed), now)
        .unwrap();
    store
        .resolve_delivery(&resolve("d1", Resolution::Retry, "key"), now)
        .unwrap();
    let mut changed = resolve("d1", Resolution::Retry, "key");
    changed.request_hash = vec![9];
    assert_eq!(
        store.resolve_delivery(&changed, now),
        Err(StorageErrorOf::Domain(DomainFailure::IdempotencyConflict))
    );
    let mut other_operation = put("account_2", 0, "key");
    other_operation.request_hash = vec![8];
    assert!(store.put_account(&other_operation, now).is_ok());
}

#[test]
fn a_slice_answers_like_the_whole() {
    let mut whole = stocked();
    whole.put_account(&put("account_2", 0, "other"), START).unwrap();
    whole
        .close_period(&close("period_2", START + HOUR, &["d3"]), START + HOUR)
        .unwrap();
    let now = START + 3 * HOUR;
    let (accounts, periods, _) = {
        let mut copy = stocked();
        copy.put_account(&put("account_2", 0, "other"), START).unwrap();
        copy.close_period(&close("period_2", START + HOUR, &["d3"]), START + HOUR)
            .unwrap();
        copy.into_rows()
    };
    let accounts: Vec<_> = accounts
        .into_iter()
        .filter(|account| account.account_id == "account_1")
        .collect();
    let periods: Vec<_> = periods
        .into_iter()
        .filter(|period| period.period_id == "period_1")
        .collect();
    let mut slice = BillingStore::from_rows(accounts, periods, Vec::new()).unwrap();
    let of_whole = whole
        .claim_next_delivery("worker", 60, 5, &Vec::new(), now)
        .unwrap();
    let of_slice = slice
        .claim_next_delivery("worker", 60, 5, &vec!["d2".to_owned()], now)
        .unwrap();
    assert_eq!(of_slice, of_whole);
    let done = complete("d1", 1, DeliveryStatus::Delivered);
    assert_eq!(
        slice.complete_delivery(&done, now),
        whole.complete_delivery(&done, now)
    );
    assert_eq!(
        slice.get_period("org_1", "period_1"),
        whole.get_period("org_1", "period_1")
    );
    assert_eq!(
        slice.inspect_delivery("org_1", "d1"),
        whole.inspect_delivery("org_1", "d1")
    );
}

#[test]
fn a_closed_snapshot_is_what_the_account_said() {
    let mut store = BillingStore::new();
    store.put_account(&put("account_1", 0, "create"), START).unwrap();
    let request = ClosePeriodRequest {
        organization_id: "org_1".to_owned(),
        account_id: "account_1".to_owned(),
        period_id: "period_1".to_owned(),
        period_start: "2023-11-14T22:13:20Z".to_owned(),
        period_end: "2023-11-14T23:13:20Z".to_owned(),
        expected_account_revision: "1".to_owned(),
        idempotency_key: "close".to_owned(),
    };
    let window = check_close_period(&request).unwrap();
    let account = store.get_account("org_1", "account_1").unwrap();
    let open = match begin_close::<()>(window, Ok(None)) {
        Ok(CloseStep::Snapshot(open)) => open,
        other => panic!("nothing was kept, but there was {other:?}"),
    };
    let mut step = begin_snapshot(&request, open, account).unwrap();
    let mut quantity = 10;
    let input = loop {
        match step {
            SnapshotStep::Read(read) => {
                let usage = Usage {
                    quantity: quantity.to_string(),
                    aggregate_revision: quantity,
                };
                quantity += 1;
                step = read.answered::<()>(Reply::Answered(usage)).unwrap();
            }
            SnapshotStep::Complete(complete) => {
                break complete.close("api".to_owned(), "usr".to_owned(), b"wire");
            }
        }
    };
    let period = store.close_period(&input, START + HOUR).unwrap();
    assert_eq!(period.total_amount_minor, "42");
    assert_eq!(period.account_revision, "1");
    let quantities: Vec<(&str, &str)> = period
        .lines
        .iter()
        .map(|line| (line.mapping_id.as_str(), line.quantity.as_str()))
        .collect();
    assert_eq!(quantities, vec![("a", "10"), ("b", "11")]);
    assert_eq!(store.get_period("org_1", "period_1"), Ok(period));
    store.put_account(&put("account_1", 1, "update"), START).unwrap();
    let mut late = input;
    late.period_id = "period_2".to_owned();
    late.idempotency_key = "late".to_owned();
    late.period_start += HOUR;
    late.period_end += HOUR;
    assert_eq!(
        store.close_period(&late, START),
        Err(StorageErrorOf::Domain(DomainFailure::RevisionConflict))
    );
}

#[test]
fn rows_are_shown_in_the_order_of_their_mappings() {
    let mut store = BillingStore::new();
    store.put_account(&put("account_1", 0, "create"), START).unwrap();
    store
        .close_period(&close("period_1", START, &["d3", "d1", "d2"]), START)
        .unwrap();
    let now = START + 2 * HOUR;
    store
        .claim_next_delivery("worker", 60, 5, &Vec::new(), now)
        .unwrap();
    let account = store.get_account("org_1", "account_1").unwrap();
    assert_eq!(account.meters, vec![meter("a"), meter("b")]);
    let period = store.get_period("org_1", "period_1").unwrap();
    let mappings: Vec<&str> = period
        .lines
        .iter()
        .map(|line| line.mapping_id.as_str())
        .collect();
    assert_eq!(mappings, vec!["d1", "d2", "d3"]);
}

#[test]
fn a_period_tells_of_its_lines() {
    let (_, mut periods, _) = stocked().into_rows();
    let mut lines = periods.remove(0).lines;
    for (first, second, expected) in [
        (DeliveryStatus::Unknown, DeliveryStatus::Failed, PeriodStatus::Unknown),
        (DeliveryStatus::Failed, DeliveryStatus::Pending, PeriodStatus::Failed),
        (DeliveryStatus::Delivered, DeliveryStatus::Pending, PeriodStatus::Pending),
        (DeliveryStatus::InFlight, DeliveryStatus::Delivered, PeriodStatus::Pending),
        (DeliveryStatus::Delivered, DeliveryStatus::Delivered, PeriodStatus::Delivered),
    ] {
        lines[0].status = first;
        lines[1].status = second;
        assert_eq!(refresh_period_status(&lines), expected);
    }
    assert_eq!(refresh_period_status(&Vec::new()), PeriodStatus::Delivered);
}

#[test]
fn what_is_kept_is_found_among_the_commands_alone() {
    let store = stocked();
    let key = CommandKey {
        caller: "billing-api".to_owned(),
        actor: "usr_billing".to_owned(),
        operation: Operation::ClosePeriod,
        idempotency_key: "close-period_1".to_owned(),
    };
    let of_whole = store.replay(&key, &vec![2]);
    assert!(matches!(of_whole, Ok(Some(Response::Period(_)))));
    let (_, _, commands) = store.into_rows();
    let commands: Vec<_> = commands
        .into_iter()
        .filter(|command| command.key == key)
        .collect();
    let slice = BillingStore::from_rows(Vec::new(), Vec::new(), commands).unwrap();
    assert_eq!(slice.replay(&key, &vec![2]), of_whole);
    assert_eq!(
        slice.replay(&key, &vec![3]),
        Err(StorageErrorOf::Domain(DomainFailure::IdempotencyConflict))
    );
}
