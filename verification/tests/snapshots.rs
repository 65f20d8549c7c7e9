use usage_billing::digest::{request_hash, stable_delivery_id};
use usage_billing::error::{
    map_storage, BillingError, DomainFailure, PluginError, Reply, RuntimeFailure, StorageErrorOf,
};
use usage_billing::input::{ClosePeriod, PutAccount};
use usage_billing::model::{
    AccountStatus, AccountView, CommandKey, DeliveryStatus, MeterView, Operation, PeriodView,
    Response,
};
use usage_billing::requests::{check_close_period, ClosePeriodRequest};
use usage_billing::snapshot::{
    begin_close, begin_snapshot, close_command, CloseStep, SnapshotStep, Unanswered, Usage,
    UsageRead,
};
use usage_billing::store::BillingStore;

const START: i128 = 1_700_000_000_000_000_000;
const HOUR: i128 = 3_600_000_000_000;

fn meter(mapping_id: &str, price: &str) -> MeterView {
    MeterView {
        mapping_id: mapping_id.to_owned(),
        source_scope_kind: "workspace".to_owned(),
        source_scope_id: "ws_1".to_owned(),
        source_subject: "usr_1".to_owned(),
        source_meter: format!("{mapping_id}-source"),
        sink_meter: format!("{mapping_id}-sink"),
        unit_price_minor: price.to_owned(),
    }
}

fn account(status: AccountStatus, meters: Vec<MeterView>) -> AccountView {
    AccountView {
        organization_id: "org_1".to_owned(),
        account_id: "account_1".to_owned(),
        scope_kind: "organization".to_owned(),
        scope_id: "org_1".to_owned(),
        subject: "org_1".to_owned(),
        currency: "USD".to_owned(),
        status,
        revision: "1".to_owned(),
        created_at: "2023-11-14T22:13:20Z".to_owned(),
        updated_at: "2023-11-14T22:13:20Z".to_owned(),
        meters,
    }
}

fn request() -> ClosePeriodRequest {
    ClosePeriodRequest {
        organization_id: "org_1".to_owned(),
        account_id: "account_1".to_owned(),
        period_id: "period_1".to_owned(),
        period_start: "2023-11-14T22:13:20Z".to_owned(),
        period_end: "2023-11-14T23:13:20Z".to_owned(),
        expected_account_revision: "1".to_owned(),
        idempotency_key: "period-close".to_owned(),
    }
}

fn usage(quantity: &str, aggregate_revision: i64) -> Usage {
    Usage {
        quantity: quantity.to_owned(),
        aggregate_revision,
    }
}

/// A close that nothing is kept of.
fn unanswered(request: &ClosePeriodRequest) -> Unanswered {
    let window = check_close_period(request).unwrap();
    match begin_close::<()>(window, Ok(None)) {
        Ok(CloseStep::Snapshot(open)) => open,
        other => panic!("nothing was kept, but there was {other:?}"),
    }
}

fn begin(account: AccountView) -> Result<SnapshotStep, BillingError> {
    let request = request();
    let open = unanswered(&request);
    begin_snapshot(&request, open, account)
}

fn to_read(step: SnapshotStep) -> UsageRead {
    match step {
        SnapshotStep::Read(read) => read,
        SnapshotStep::Complete(_) => panic!("nothing was left to read"),
    }
}

fn closed(step: SnapshotStep) -> ClosePeriod {
    match step {
        SnapshotStep::Read(_) => panic!("something was left to read"),
        SnapshotStep::Complete(complete) => {
            complete.close("api".to_owned(), "usr".to_owned(), b"wire")
        }
    }
}

#[test]
fn every_meter_is_read_and_priced() {
    let account = account(
        AccountStatus::Active,
        vec![meter("calls", "3"), meter("tokens", "1000000")],
    );
    let read = to_read(begin(account).unwrap());
    let asked = read.request();
    assert_eq!(asked.meter, "calls-source");
    assert_eq!(asked.scope_kind, "workspace");
    assert_eq!(asked.scope_id, "ws_1");
    assert_eq!(asked.subject, "usr_1");
    assert_eq!(asked.window_start, "2023-11-14T22:13:20Z");
    assert_eq!(asked.window_end, "2023-11-14T23:13:20Z");
    let step = read
        .answered::<()>(Reply::Answered(usage("0010", 7)))
        .unwrap();
    let read = to_read(step);
    assert_eq!(read.request().meter, "tokens-source");
    let step = read
        .answered::<()>(Reply::Answered(usage("9223372036854775808", 8)))
        .unwrap();
    let input = closed(step);
    assert_eq!(input.caller, "api");
    assert_eq!(input.actor, "usr");
    assert_eq!(input.organization_id, "org_1");
    assert_eq!(input.account_id, "account_1");
    assert_eq!(input.period_id, "period_1");
    assert_eq!(input.period_start, 1_700_000_000_000_000_000);
    assert_eq!(input.period_end, 1_700_003_600_000_000_000);
    assert_eq!(input.expected_account_revision, 1);
    assert_eq!(input.idempotency_key, "period-close");
    assert_eq!(input.request_hash, request_hash(b"wire"));
    assert_eq!(input.lines.len(), 2);
    let line = &input.lines[0];
    assert_eq!(line.delivery_id, stable_delivery_id("period_1", "calls"));
    assert_eq!(line.mapping_id, "calls");
    assert_eq!(line.source_meter, "calls-source");
    assert_eq!(line.sink_meter, "calls-sink");
    assert_eq!(line.quantity, "0010");
    assert_eq!(line.usage_revision, 7);
    assert_eq!(line.unit_price_minor, "3");
    assert_eq!(line.amount_minor, "30");
    assert_eq!(input.lines[1].amount_minor, "9223372036854775808000000");
    assert_eq!(input.total_amount_minor, "9223372036854775808000030");
}

#[test]
fn an_account_without_meters_is_complete_at_once() {
    let input = closed(begin(account(AccountStatus::Active, Vec::new())).unwrap());
    assert_eq!(input.lines, Vec::new());
    assert_eq!(input.total_amount_minor, "0");
}

#[test]
fn disabled_accounts_are_not_closed() {
    let result = begin(account(AccountStatus::Disabled, vec![meter("calls", "3")]));
    assert_eq!(result.unwrap_err(), BillingError::AccountDisabled);
}

#[test]
fn the_shown_revision_has_to_be_the_expected_one() {
    let mut moved_on = account(AccountStatus::Active, vec![meter("calls", "3")]);
    moved_on.revision = "2".to_owned();
    assert_eq!(begin(moved_on).unwrap_err(), BillingError::RevisionConflict);
    let mut padded = request();
    padded.expected_account_revision = "01".to_owned();
    let open = unanswered(&padded);
    let current = account(AccountStatus::Active, vec![meter("calls", "3")]);
    assert_eq!(
        begin_snapshot(&padded, open, current).unwrap_err(),
        BillingError::RevisionConflict
    );
}

#[test]
fn usage_that_cannot_be_had_closes_nothing() {
    let start = || {
        to_read(begin(account(AccountStatus::Active, vec![meter("calls", "3")])).unwrap())
    };
    assert_eq!(
        start().answered::<&str>(Reply::Rejected).unwrap_err(),
        PluginError::Domain(BillingError::SourceRejected)
    );
    assert_eq!(
        start().answered(Reply::Failed("unavailable")).unwrap_err(),
        PluginError::Runtime(RuntimeFailure::Dependency("unavailable"))
    );
    assert_eq!(
        start()
            .answered::<&str>(Reply::Answered(usage("1.5", 1)))
            .unwrap_err(),
        PluginError::Domain(BillingError::SourceRejected)
    );
    let priceless = begin(account(AccountStatus::Active, vec![meter("calls", "free")])).unwrap();
    assert_eq!(
        to_read(priceless)
            .answered::<&str>(Reply::Answered(usage("1", 1)))
            .unwrap_err(),
        PluginError::Domain(BillingError::InvalidRequest)
    );
}

fn put(status: AccountStatus, expected_revision: i64, key: &str) -> PutAccount {
    PutAccount {
        caller: "api".to_owned(),
        actor: "usr".to_owned(),
        organization_id: "org_1".to_owned(),
        account_id: "account_1".to_owned(),
        scope_kind: "organization".to_owned(),
        scope_id: "org_1".to_owned(),
        subject: "org_1".to_owned(),
        currency: "USD".to_owned(),
        status,
        expected_revision,
        idempotency_key: key.to_owned(),
        request_hash: vec![1],
        meters: vec![meter("tokens", "2"), meter("calls", "3")],
    }
}

/// A whole close request, from what is kept of it to what is stored.
fn close(
    store: &mut BillingStore,
    request: &ClosePeriodRequest,
    wire: &[u8],
) -> Result<PeriodView, PluginError<BillingError, ()>> {
    close_with(store, request, wire, || Reply::Answered(usage("10", 7)))
}

/// The same, with what the usage meter replies for each meter.
fn close_with(
    store: &mut BillingStore,
    request: &ClosePeriodRequest,
    wire: &[u8],
    mut reading: impl FnMut() -> Reply<Usage, ()>,
) -> Result<PeriodView, PluginError<BillingError, ()>> {
    let window = check_close_period(request).map_err(PluginError::Domain)?;
    let (key, hash) = close_command(request, "api", "usr", wire);
    let open = match begin_close(window, store.replay(&key, &hash))? {
        CloseStep::Answered(view) => return Ok(view),
        CloseStep::Snapshot(open) => open,
    };
    let account =
        map_storage(store.get_account(&request.organization_id, &request.account_id))?;
    let mut step = begin_snapshot(request, open, account).map_err(PluginError::Domain)?;
    loop {
        match step {
            SnapshotStep::Read(read) => step = read.answered(reading())?,
            SnapshotStep::Complete(complete) => {
                let input = complete.close("api".to_owned(), "usr".to_owned(), wire);
                return map_storage(store.close_period(&input, START + HOUR));
            }
        }
    }
}

#[test]
fn a_repeated_close_is_answered_whatever_became_of_the_account() {
    let mut store = BillingStore::new();
    store
        .put_account(&put(AccountStatus::Active, 0, "create"), START)
        .unwrap();
    let first = close(&mut store, &request(), b"wire").unwrap();
    assert_eq!(first.total_amount_minor, "50");

    store
        .put_account(&put(AccountStatus::Active, 1, "raise"), START + HOUR)
        .unwrap();
    assert_eq!(close(&mut store, &request(), b"wire").unwrap(), first);

    store
        .put_account(&put(AccountStatus::Disabled, 2, "disable"), START + HOUR)
        .unwrap();
    assert_eq!(close(&mut store, &request(), b"wire").unwrap(), first);

    let claim = store
        .claim_next_delivery("worker", 60, 5, &Vec::new(), START + 2 * HOUR)
        .unwrap();
    assert!(claim.is_some());
    assert_eq!(close(&mut store, &request(), b"wire").unwrap(), first);
    let read = store.get_period("org_1", "period_1").unwrap();
    assert_eq!(read.created_at, first.created_at);
    assert_eq!(read.total_amount_minor, first.total_amount_minor);
    assert_eq!(read.account_revision, "1");
    assert_eq!(read.lines.len(), 2);
    assert_eq!(read.lines[0].mapping_id, "calls");
    assert_eq!(read.lines[0].amount_minor, first.lines[0].amount_minor);
    assert!(read.lines.iter().any(|line| line.status == DeliveryStatus::InFlight));
    assert!(first.lines.iter().all(|line| line.status == DeliveryStatus::Pending));

    let (_, periods, commands) = store.into_rows();
    assert_eq!(periods.len(), 1);
    assert_eq!(periods[0].lines.len(), 2);
    assert_eq!(commands.len(), 4);
}

#[test]
fn a_new_close_still_looks_at_the_account() {
    let mut store = BillingStore::new();
    store
        .put_account(&put(AccountStatus::Active, 0, "create"), START)
        .unwrap();
    close(&mut store, &request(), b"wire").unwrap();
    store
        .put_account(&put(AccountStatus::Disabled, 1, "disable"), START + HOUR)
        .unwrap();
    let mut next = request();
    next.idempotency_key = "next".to_owned();
    assert_eq!(
        close(&mut store, &next, b"next").unwrap_err(),
        PluginError::Domain(BillingError::AccountDisabled)
    );
}

#[test]
fn a_key_that_another_request_has_used_is_refused_in_the_end() {
    let mut store = BillingStore::new();
    store
        .put_account(&put(AccountStatus::Active, 0, "create"), START)
        .unwrap();
    close(&mut store, &request(), b"wire").unwrap();

    let mut elsewhere = request();
    elsewhere.account_id = "account_2".to_owned();
    assert_eq!(
        close(&mut store, &elsewhere, b"elsewhere").unwrap_err(),
        PluginError::Domain(BillingError::NotFound)
    );
    let unusable = || Reply::Answered(usage("1.5", 7));
    assert_eq!(
        close_with(&mut store, &request(), b"other", unusable).unwrap_err(),
        PluginError::Domain(BillingError::SourceRejected)
    );
    assert_eq!(
        close_with(&mut store, &request(), b"other", || Reply::Failed(())).unwrap_err(),
        PluginError::Runtime(RuntimeFailure::Dependency(()))
    );
    let mut readings = 0;
    let counted = || {
        readings += 1;
        Reply::Answered(usage("10", 7))
    };
    assert_eq!(
        close_with(&mut store, &request(), b"other", counted).unwrap_err(),
        PluginError::Domain(BillingError::IdempotencyConflict)
    );
    assert_eq!(readings, 2);

    store
        .put_account(&put(AccountStatus::Active, 1, "raise"), START + HOUR)
        .unwrap();
    assert_eq!(
        close(&mut store, &request(), b"other").unwrap_err(),
        PluginError::Domain(BillingError::RevisionConflict)
    );
    store
        .put_account(&put(AccountStatus::Disabled, 2, "disable"), START + HOUR)
        .unwrap();
    assert_eq!(
        close(&mut store, &request(), b"other").unwrap_err(),
        PluginError::Domain(BillingError::AccountDisabled)
    );
    let (_, periods, commands) = store.into_rows();
    assert_eq!(periods.len(), 1);
    assert_eq!(commands.len(), 4);
}

#[test]
fn a_close_is_looked_up_by_caller_actor_and_key() {
    let (key, hash) = close_command(&request(), "api", "usr", b"wire");
    assert_eq!(
        key,
        CommandKey {
            caller: "api".to_owned(),
            actor: "usr".to_owned(),
            operation: Operation::ClosePeriod,
            idempotency_key: "period-close".to_owned(),
        }
    );
    assert_eq!(hash, request_hash(b"wire"));
}

#[test]
fn what_is_kept_decides_how_a_close_begins() {
    let window = || check_close_period(&request()).unwrap();
    assert!(matches!(
        begin_close::<()>(
            window(),
            Err(StorageErrorOf::Domain(DomainFailure::IdempotencyConflict))
        ),
        Ok(CloseStep::Snapshot(_))
    ));
    assert_eq!(
        begin_close::<()>(
            window(),
            Err(StorageErrorOf::Database {
                operation: "read billing command".to_owned(),
            })
        )
        .unwrap_err(),
        PluginError::Runtime(RuntimeFailure::PluginFailure {
            detail: "PostgreSQL operation `read billing command` failed".to_owned(),
        })
    );
    assert_eq!(
        begin_close::<()>(
            window(),
            Ok(Some(Response::Account(account(AccountStatus::Active, Vec::new()))))
        )
        .unwrap_err(),
        PluginError::Runtime(RuntimeFailure::PluginFailure {
            detail: "Usage Billing response serialization failed".to_owned(),
        })
    );
    assert!(matches!(
        begin_close::<()>(window(), Ok(None)),
        Ok(CloseStep::Snapshot(_))
    ));
}
