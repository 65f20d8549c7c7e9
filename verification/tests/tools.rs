use usage_billing::authorize::{BILLING_READ, CAPABILITY_ID};
use usage_billing::error::{BillingError, PluginError, RuntimeFailure};
use usage_billing::requests::{
    GetAccountRequest, GetPeriodRequest, InspectDeliveryRequest, ListAccountsRequest,
    ListPeriodsRequest,
};
use usage_billing::tools::{
    decode, execute, select_tool, tool_definition, tool_definitions, tool_error, CalledTool,
    ExecuteErrorOf, Inspection, Tool, ToolExecutionClass, ToolOutcome,
};

fn asked(tool: Tool) -> Inspection {
    let organization_id = "org_1".to_owned();
    match tool {
        Tool::GetAccount => Inspection::GetAccount(GetAccountRequest {
            organization_id,
            account_id: "account_1".to_owned(),
        }),
        Tool::ListAccounts => Inspection::ListAccounts(ListAccountsRequest {
            organization_id,
            cursor: None,
            limit: 10,
        }),
        Tool::GetPeriod => Inspection::GetPeriod(GetPeriodRequest {
            organization_id,
            period_id: "period_1".to_owned(),
        }),
        Tool::ListPeriods => Inspection::ListPeriods(ListPeriodsRequest {
            organization_id,
            account_id: "account_1".to_owned(),
            cursor: None,
            limit: 10,
        }),
        Tool::InspectDelivery => Inspection::InspectDelivery(InspectDeliveryRequest {
            organization_id,
            delivery_id: "delivery_1".to_owned(),
        }),
    }
}

fn called(tool: Tool) -> CalledTool {
    decode(tool, Some(asked(tool))).unwrap().start().1
}

#[test]
fn descriptor_and_catalog_are_read_only() {
    assert_eq!(CAPABILITY_ID, "lenso.usage-billing@1");
    let tools = tool_definitions().unwrap();
    assert_eq!(tools.len(), 5);
    assert!(tools
        .iter()
        .map(|tool| tool.name.as_str())
        .all(|name| !name.contains("put")
            && !name.contains("close")
            && !name.contains("reconcile")
            && !name.contains("resolve")));
}

#[test]
fn the_catalog_is_in_order_and_its_schemas_are_compact_json() {
    let tools = tool_definitions().unwrap();
    let names: Vec<&str> = tools.iter().map(|tool| tool.name.as_str()).collect();
    assert_eq!(
        names,
        vec![
            "usage_billing_get_account",
            "usage_billing_list_accounts",
            "usage_billing_get_period",
            "usage_billing_list_periods",
            "usage_billing_inspect_delivery",
        ]
    );
    for tool in &tools {
        assert_eq!(tool.execution, ToolExecutionClass::ParallelSafe);
        let selected = select_tool(&tool.name).unwrap();
        assert_eq!(tool.description, selected.description());
        assert_eq!(selected.operation().permission(), BILLING_READ);
        let schema: serde_json::Value = serde_json::from_str(selected.schema()).unwrap();
        assert_eq!(tool.input_schema_json, schema.to_string());
        assert!(!tool.input_schema_json.contains('\n'));
        assert!(selected.schema().contains('\n'));
        assert_eq!(schema["type"], "object");
    }
}

#[test]
fn a_definition_holds_the_given_schema() {
    let definition = tool_definition(Tool::GetPeriod, "{}".to_owned());
    assert_eq!(definition.name, "usage_billing_get_period");
    assert_eq!(
        definition.description,
        "Get one immutable usage-billing period snapshot."
    );
    assert_eq!(definition.input_schema_json, "{}");
}

#[test]
fn unknown_tools_are_not_found() {
    assert_eq!(select_tool("usage_billing_list_periods"), Ok(Tool::ListPeriods));
    assert_eq!(
        select_tool("usage_billing_put_account"),
        Err(ExecuteErrorOf::NotFound)
    );
    assert_eq!(select_tool(""), Err(ExecuteErrorOf::NotFound));
}

#[test]
fn unreadable_arguments_are_invalid() {
    assert_eq!(
        decode(Tool::GetAccount, None).unwrap_err(),
        ExecuteErrorOf::InvalidArguments
    );
    assert_eq!(
        decode(Tool::GetAccount, Some(asked(Tool::GetPeriod))).unwrap_err(),
        ExecuteErrorOf::InvalidArguments
    );
}

#[test]
fn a_tool_makes_the_call_that_its_name_says() {
    for name in [
        "get_account",
        "list_accounts",
        "get_period",
        "list_periods",
        "inspect_delivery",
    ] {
        let tool = select_tool(&format!("usage_billing_{name}")).unwrap();
        assert_eq!(tool.operation().name(), name);
        let (inspection, _) = decode(tool, Some(asked(tool))).unwrap().start();
        assert_eq!(inspection, asked(tool));
        assert_eq!(inspection.tool(), tool);
    }
}

#[test]
fn declared_errors_are_told_by_kind_or_by_code() {
    assert_eq!(
        tool_error(BillingError::InvalidRequest),
        ExecuteErrorOf::InvalidArguments
    );
    assert_eq!(tool_error(BillingError::NotFound), ExecuteErrorOf::NotFound);
    assert_eq!(
        tool_error(BillingError::DeliveryNotFound),
        ExecuteErrorOf::NotFound
    );
    assert_eq!(
        tool_error(BillingError::Forbidden),
        ExecuteErrorOf::PermissionDenied
    );
    assert_eq!(
        tool_error(BillingError::Unauthenticated),
        ExecuteErrorOf::PermissionDenied
    );
    for (error, code) in [
        (BillingError::AccountDisabled, "account_disabled"),
        (BillingError::IdempotencyConflict, "idempotency_conflict"),
        (BillingError::InvalidResolution, "invalid_resolution"),
        (BillingError::PeriodConflict, "period_conflict"),
        (BillingError::RevisionConflict, "revision_conflict"),
        (BillingError::SourceRejected, "source_rejected"),
        (BillingError::Unknown, "unknown_domain_error"),
    ] {
        assert_eq!(
            tool_error(error),
            ExecuteErrorOf::ExecutionFailed {
                reason_code: code.to_owned(),
                message: "Usage Billing rejected the inspection operation.".to_owned(),
                details_json: format!("{{\"domain_error\":\"{code}\"}}"),
            }
        );
    }
}

#[test]
fn answers_say_that_they_are_read_only() {
    let response = execute::<()>(
        called(Tool::InspectDelivery),
        ToolOutcome::Answered("{\n}".to_owned()),
    )
    .unwrap();
    assert_eq!(response.content, "{\n}");
    let metadata: serde_json::Value = serde_json::from_str(&response.metadata_json).unwrap();
    assert_eq!(metadata["tool"], "usage_billing_inspect_delivery");
    assert_eq!(metadata["read_only"], true);
    assert_eq!(metadata.as_object().unwrap().len(), 2);
}

#[test]
fn failures_of_a_tool_are_handed_on() {
    assert_eq!(
        execute::<()>(called(Tool::GetAccount), ToolOutcome::Declared(BillingError::NotFound)),
        Err(PluginError::Domain(ExecuteErrorOf::NotFound))
    );
    assert_eq!(
        execute(called(Tool::GetAccount), ToolOutcome::Failed("unavailable")),
        Err(PluginError::Runtime(RuntimeFailure::Dependency("unavailable")))
    );
    assert_eq!(
        execute::<()>(
            called(Tool::GetAccount),
            ToolOutcome::Unwritable {
                error: "key must be a string".to_owned(),
            }
        ),
        Err(PluginError::Runtime(RuntimeFailure::PluginFailure {
            detail: "Usage Billing Tool could not serialize its response: key must be a string"
                .to_owned(),
        }))
    );
}
