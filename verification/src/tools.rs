//! Read-only tools over the billing operations, for an agent that inspects.

use vstd::prelude::*;
use vstd::string::*;

use crate::authorize::{AdminOperation, BILLING_READ};
use crate::error::{is_plugin_failure, BillingError, PluginError, RuntimeFailure};
use crate::model::models;
use crate::requests::{
    GetAccountRequest, GetPeriodRequest, InspectDeliveryRequest, ListAccountsRequest,
    ListPeriodsRequest,
};
use crate::text::{same_text, Text};

verus! {

pub const GET_ACCOUNT: &'static str = "usage_billing_get_account";

pub const GET_ACCOUNT_SCHEMA: &'static str =
    "{
  \"type\": \"object\",
  \"additionalProperties\": false,
  \"required\": [
    \"organization_id\",
    \"account_id\"
  ],
  \"properties\": {
    \"organization_id\": {
      \"type\": \"string\",
      \"minLength\": 1,
      \"maxLength\": 512
    },
    \"account_id\": {
      \"type\": \"string\",
      \"minLength\": 1,
      \"maxLength\": 512
    }
  }
}";

pub const LIST_ACCOUNTS: &'static str = "usage_billing_list_accounts";

pub const LIST_ACCOUNTS_SCHEMA: &'static str =
    "{
  \"type\": \"object\",
  \"additionalProperties\": false,
  \"required\": [
    \"organization_id\",
    \"limit\"
  ],
  \"properties\": {
    \"organization_id\": {
      \"type\": \"string\",
      \"minLength\": 1,
      \"maxLength\": 512
    },
    \"cursor\": {
      \"type\": [
        \"string\",
        \"null\"
      ],
      \"minLength\": 1,
      \"maxLength\": 512
    },
    \"limit\": {
      \"type\": \"integer\",
      \"minimum\": 1,
      \"maximum\": 200
    }
  }
}";

pub const GET_PERIOD: &'static str = "usage_billing_get_period";

pub const GET_PERIOD_SCHEMA: &'static str =
    "{
  \"type\": \"object\",
  \"additionalProperties\": false,
  \"required\": [
    \"organization_id\",
    \"period_id\"
  ],
  \"properties\": {
    \"organization_id\": {
      \"type\": \"string\",
      \"minLength\": 1,
      \"maxLength\": 512
    },
    \"period_id\": {
      \"type\": \"string\",
      \"minLength\": 1,
      \"maxLength\": 512
    }
  }
}";

pub const LIST_PERIODS: &'static str = "usage_billing_list_periods";

pub const LIST_PERIODS_SCHEMA: &'static str =
    "{
  \"type\": \"object\",
  \"additionalProperties\": false,
  \"required\": [
    \"organization_id\",
    \"account_id\",
    \"limit\"
  ],
  \"properties\": {
    \"organization_id\": {
      \"type\": \"string\",
      \"minLength\": 1,
      \"maxLength\": 512
    },
    \"account_id\": {
      \"type\": \"string\",
      \"minLength\": 1,
      \"maxLength\": 512
    },
    \"cursor\": {
      \"type\": [
        \"string\",
        \"null\"
      ],
      \"minLength\": 1,
      \"maxLength\": 512
    },
    \"limit\": {
      \"type\": \"integer\",
      \"minimum\": 1,
      \"maximum\": 200
    }
  }
}";

pub const INSPECT_DELIVERY: &'static str = "usage_billing_inspect_delivery";

pub const INSPECT_DELIVERY_SCHEMA: &'static str =
    "{
  \"type\": \"object\",
  \"additionalProperties\": false,
  \"required\": [
    \"organization_id\",
    \"delivery_id\"
  ],
  \"properties\": {
    \"organization_id\": {
      \"type\": \"string\",
      \"minLength\": 1,
      \"maxLength\": 512
    },
    \"delivery_id\": {
      \"type\": \"string\",
      \"minLength\": 1,
      \"maxLength\": 512
    }
  }
}";


/// The tools. Each of them reads, and none of them writes.
#[derive(Clone, Copy, Debug, PartialEq, Eq, Structural)]
pub enum Tool {
    GetAccount,
    ListAccounts,
    GetPeriod,
    ListPeriods,
    InspectDelivery,
}

/// The JSON text of the value that a JSON text stands for, if it is one.
pub uninterp spec fn json_normal(text: Seq<char>) -> Option<Seq<char>>;

/// The JSON text of the object with one text, and with a flag if there is one.
pub uninterp spec fn json_object(
    key: Seq<char>,
    value: Seq<char>,
    flag: Option<(Seq<char>, bool)>,
) -> Seq<char>;

/// Reads a JSON text with `serde_json::from_str` and writes the value again with `Display` of
/// `serde_json::Value`. What comes out depends on the text alone.
#[verifier::external_body]
fn normalize_json(text: &str) -> (r: Option<String>)
    ensures
        match json_normal(text@) {
            Some(normal) => r is Some && r->0@ == normal,
            None => r is None,
        },
{
    serde_json::from_str::<serde_json::Value>(text).ok().map(|value| value.to_string())
}

/// Writes an object with `Display` of `serde_json::Value`. What comes out depends on the names and
/// values alone.
#[verifier::external_body]
fn write_object(key: &str, value: &str, flag: Option<(&str, bool)>) -> (r: String)
    ensures
        r@ == json_object(
            key@,
            value@,
            match flag {
                Some((name, set)) => Some((name@, set)),
                None => None,
            },
        ),
{
    let mut object = serde_json::Map::new();
    object.insert(key.to_owned(), serde_json::Value::from(value));
    object.extend(flag.map(|(name, set)| (name.to_owned(), serde_json::Value::from(set))));
    serde_json::Value::Object(object).to_string()
}

impl Tool {
    pub open spec fn spec_name(self) -> Text {
        match self {
            Tool::GetAccount => GET_ACCOUNT@,
            Tool::ListAccounts => LIST_ACCOUNTS@,
            Tool::GetPeriod => GET_PERIOD@,
            Tool::ListPeriods => LIST_PERIODS@,
            Tool::InspectDelivery => INSPECT_DELIVERY@,
        }
    }

    pub fn name(self) -> (r: &'static str)
        ensures
            r@ == self.spec_name(),
    {
        match self {
            Tool::GetAccount => GET_ACCOUNT,
            Tool::ListAccounts => LIST_ACCOUNTS,
            Tool::GetPeriod => GET_PERIOD,
            Tool::ListPeriods => LIST_PERIODS,
            Tool::InspectDelivery => INSPECT_DELIVERY,
        }
    }

    pub open spec fn spec_description(self) -> Text {
        match self {
            Tool::GetAccount => "Get one billable account for authorized inspection."@,
            Tool::ListAccounts => "List billable accounts with bounded cursor pagination."@,
            Tool::GetPeriod => "Get one immutable usage-billing period snapshot."@,
            Tool::ListPeriods => "List immutable usage-billing period snapshots with bounded cursor pagination."@,
            Tool::InspectDelivery => "Inspect one provider-neutral billing delivery without reconciling or resolving it."@,
        }
    }

    pub fn description(self) -> (r: &'static str)
        ensures
            r@ == self.spec_description(),
    {
        match self {
            Tool::GetAccount => "Get one billable account for authorized inspection.",
            Tool::ListAccounts => "List billable accounts with bounded cursor pagination.",
            Tool::GetPeriod => "Get one immutable usage-billing period snapshot.",
            Tool::ListPeriods => "List immutable usage-billing period snapshots with bounded cursor pagination.",
            Tool::InspectDelivery => "Inspect one provider-neutral billing delivery without reconciling or resolving it.",
        }
    }

    pub open spec fn spec_schema(self) -> Text {
        match self {
            Tool::GetAccount => GET_ACCOUNT_SCHEMA@,
            Tool::ListAccounts => LIST_ACCOUNTS_SCHEMA@,
            Tool::GetPeriod => GET_PERIOD_SCHEMA@,
            Tool::ListPeriods => LIST_PERIODS_SCHEMA@,
            Tool::InspectDelivery => INSPECT_DELIVERY_SCHEMA@,
        }
    }

    /// The JSON schema of what the tool is given.
    pub fn schema(self) -> (r: &'static str)
        ensures
            r@ == self.spec_schema(),
    {
        match self {
            Tool::GetAccount => GET_ACCOUNT_SCHEMA,
            Tool::ListAccounts => LIST_ACCOUNTS_SCHEMA,
            Tool::GetPeriod => GET_PERIOD_SCHEMA,
            Tool::ListPeriods => LIST_PERIODS_SCHEMA,
            Tool::InspectDelivery => INSPECT_DELIVERY_SCHEMA,
        }
    }

    pub open spec fn spec_operation(self) -> AdminOperation {
        match self {
            Tool::GetAccount => AdminOperation::GetAccount,
            Tool::ListAccounts => AdminOperation::ListAccounts,
            Tool::GetPeriod => AdminOperation::GetPeriod,
            Tool::ListPeriods => AdminOperation::ListPeriods,
            Tool::InspectDelivery => AdminOperation::InspectDelivery,
        }
    }

    /// The operation that the tool calls.
    pub fn operation(self) -> (r: AdminOperation)
        ensures
            r == self.spec_operation(),
    {
        match self {
            Tool::GetAccount => AdminOperation::GetAccount,
            Tool::ListAccounts => AdminOperation::ListAccounts,
            Tool::GetPeriod => AdminOperation::GetPeriod,
            Tool::ListPeriods => AdminOperation::ListPeriods,
            Tool::InspectDelivery => AdminOperation::InspectDelivery,
        }
    }
}

/// No tool calls an operation that needs more than the permission to read.
pub proof fn law_tools_only_read(tool: Tool)
    ensures
        tool.spec_operation().spec_permission() == BILLING_READ@,
{
}

proof fn lemma_names_differ()
    ensures
        forall|a: Tool, b: Tool| #[trigger] a.spec_name() == #[trigger] b.spec_name() ==> a == b,
{
    reveal_strlit("usage_billing_get_account");
    reveal_strlit("usage_billing_list_accounts");
    reveal_strlit("usage_billing_get_period");
    reveal_strlit("usage_billing_list_periods");
    reveal_strlit("usage_billing_inspect_delivery");
    assert(GET_ACCOUNT@.len() == 25 && LIST_ACCOUNTS@.len() == 27 && GET_PERIOD@.len() == 24
        && LIST_PERIODS@.len() == 26 && INSPECT_DELIVERY@.len() == 30);
}

/// The tool that a name asks for.
pub open spec fn tool_named(name: Text) -> Option<Tool> {
    if exists|tool: Tool| #[trigger] tool.spec_name() == name {
        Some(choose|tool: Tool| #[trigger] tool.spec_name() == name)
    } else {
        None
    }
}

/// Every tool is found by its name, and by no other.
pub proof fn law_tool_is_found_by_its_name(tool: Tool, name: Text)
    ensures
        tool_named(name) == Some(tool) <==> name == tool.spec_name(),
{
    lemma_names_differ();
    let found = choose|other: Tool| #[trigger] other.spec_name() == name;
    if name == tool.spec_name() {
        assert(found.spec_name() == tool.spec_name());
    }
}

/// What can go wrong with a tool.
#[derive(Debug, PartialEq, Eq)]
pub enum ExecuteErrorOf<T> {
    ExecutionFailed { reason_code: T, message: T, details_json: T },
    InvalidArguments,
    NotFound,
    PermissionDenied,
}

pub type ExecuteError = ExecuteErrorOf<String>;

pub type ExecuteFailure = ExecuteErrorOf<Text>;

impl View for ExecuteErrorOf<String> {
    type V = ExecuteFailure;

    open spec fn view(&self) -> ExecuteFailure {
        match self {
            ExecuteErrorOf::ExecutionFailed { reason_code, message, details_json } =>
            ExecuteErrorOf::ExecutionFailed {
                reason_code: reason_code@,
                message: message@,
                details_json: details_json@,
            },
            ExecuteErrorOf::InvalidArguments => ExecuteErrorOf::InvalidArguments,
            ExecuteErrorOf::NotFound => ExecuteErrorOf::NotFound,
            ExecuteErrorOf::PermissionDenied => ExecuteErrorOf::PermissionDenied,
        }
    }
}

/// What a tool answers.
#[derive(Debug, PartialEq, Eq)]
pub struct ExecuteResponse {
    pub content: String,
    pub metadata_json: String,
}

/// How a tool may be run.
#[derive(Clone, Copy, Debug, PartialEq, Eq, Structural)]
pub enum ToolExecutionClass {
    ParallelSafe,
    Exclusive,
}

/// A tool as the catalog shows it.
#[derive(Debug, PartialEq, Eq)]
pub struct ToolDefinitionOf<T> {
    pub name: T,
    pub description: T,
    pub input_schema_json: T,
    pub execution: ToolExecutionClass,
}

pub type ToolDefinition = ToolDefinitionOf<String>;

pub type ToolDefinitionModel = ToolDefinitionOf<Text>;

impl View for ToolDefinitionOf<String> {
    type V = ToolDefinitionModel;

    open spec fn view(&self) -> ToolDefinitionModel {
        ToolDefinitionOf {
            name: self.name@,
            description: self.description@,
            input_schema_json: self.input_schema_json@,
            execution: self.execution,
        }
    }
}

/// The tool as the catalog shows it, given the JSON text of its schema.
pub open spec fn tool_shown(tool: Tool, schema: Text) -> ToolDefinitionModel {
    ToolDefinitionOf {
        name: tool.spec_name(),
        description: tool.spec_description(),
        input_schema_json: schema,
        execution: ToolExecutionClass::ParallelSafe,
    }
}

/// The tool as the catalog shows it, given the JSON text of its schema.
pub fn tool_definition(tool: Tool, input_schema_json: String) -> (r: ToolDefinition)
    ensures
        r@ == tool_shown(tool, input_schema_json@),
{
    ToolDefinitionOf {
        name: tool.name().to_owned(),
        description: tool.description().to_owned(),
        input_schema_json,
        execution: ToolExecutionClass::ParallelSafe,
    }
}

/// All tools, in the order of the catalog.
pub open spec fn all_tools() -> Seq<Tool> {
    seq![
        Tool::GetAccount,
        Tool::ListAccounts,
        Tool::GetPeriod,
        Tool::ListPeriods,
        Tool::InspectDelivery,
    ]
}

/// Every schema is JSON.
pub open spec fn schemas_readable() -> bool {
    forall|tool: Tool| json_normal(#[trigger] tool.spec_schema()) is Some
}

/// The catalog: all tools, with their schemas in normal form, provided that every schema is JSON.
pub fn tool_definitions() -> (r: Option<Vec<ToolDefinition>>)
    ensures
        match r {
            Some(tools) => {
                &&& schemas_readable()
                &&& models(tools@) == Seq::new(
                    all_tools().len(),
                    |i: int|
                        tool_shown(
                            all_tools()[i],
                            json_normal(all_tools()[i].spec_schema())->0,
                        ),
                )
            },
            None => !schemas_readable(),
        },
{
    let tools: [Tool; 5] = [
        Tool::GetAccount,
        Tool::ListAccounts,
        Tool::GetPeriod,
        Tool::ListPeriods,
        Tool::InspectDelivery,
    ];
    assert(tools@ =~= all_tools());
    let mut out: Vec<ToolDefinition> = Vec::new();
    let mut i: usize = 0;
    while i < 5
        invariant
            i <= 5,
            tools@ == all_tools(),
            out@.len() == i,
            forall|j: int|
                0 <= j < i ==> json_normal((#[trigger] all_tools()[j]).spec_schema()) is Some,
            forall|j: int|
                0 <= j < i ==> (#[trigger] out@[j])@ == tool_shown(
                    all_tools()[j],
                    json_normal(all_tools()[j].spec_schema())->0,
                ),
        decreases 5 - i,
    {
        let tool = tools[i];
        assert(tool == all_tools()[i as int]);
        match normalize_json(tool.schema()) {
            Some(schema) => {
                out.push(tool_definition(tool, schema));
            },
            None => {
                assert(json_normal(tool.spec_schema()) is None);
                return None;
            },
        }
        i = i + 1;
    }
    proof {
        assert forall|tool: Tool| json_normal(#[trigger] tool.spec_schema()) is Some by {
            let all = all_tools();
            assert(all[0].spec_schema() == Tool::GetAccount.spec_schema());
            assert(all[1].spec_schema() == Tool::ListAccounts.spec_schema());
            assert(all[2].spec_schema() == Tool::GetPeriod.spec_schema());
            assert(all[3].spec_schema() == Tool::ListPeriods.spec_schema());
            assert(all[4].spec_schema() == Tool::InspectDelivery.spec_schema());
        }
        assert(models(out@) =~= Seq::new(
            all_tools().len(),
            |i: int|
                tool_shown(all_tools()[i], json_normal(all_tools()[i].spec_schema())->0),
        ));
    }
    Some(out)
}

/// The tool that a name asks for.
pub fn select_tool(name: &str) -> (r: Result<Tool, ExecuteError>)
    ensures
        match tool_named(name@) {
            Some(tool) => r == Ok::<Tool, ExecuteError>(tool),
            None => r == Err::<Tool, ExecuteError>(ExecuteErrorOf::NotFound),
        },
{
    let tools: [Tool; 5] = [
        Tool::GetAccount,
        Tool::ListAccounts,
        Tool::GetPeriod,
        Tool::ListPeriods,
        Tool::InspectDelivery,
    ];
    assert(tools@ =~= all_tools());
    let mut i: usize = 0;
    while i < 5
        invariant
            i <= 5,
            tools@ == all_tools(),
            forall|j: int| 0 <= j < i ==> (#[trigger] all_tools()[j]).spec_name() != name@,
        decreases 5 - i,
    {
        let tool = tools[i];
        assert(tool == all_tools()[i as int]);
        if same_text(tool.name(), name) {
            proof {
                law_tool_is_found_by_its_name(tool, name@);
            }
            return Ok(tool);
        }
        i = i + 1;
    }
    proof {
        if tool_named(name@) is Some {
            let found = tool_named(name@)->0;
            let all = all_tools();
            assert(found == all[0] || found == all[1] || found == all[2] || found == all[3] || found
                == all[4]);
        }
    }
    Err(ExecuteErrorOf::NotFound)
}

/// A call of a billing operation with its arguments. There are none that write.
#[derive(Debug, PartialEq, Eq)]
pub enum Inspection {
    GetAccount(GetAccountRequest),
    ListAccounts(ListAccountsRequest),
    GetPeriod(GetPeriodRequest),
    ListPeriods(ListPeriodsRequest),
    InspectDelivery(InspectDeliveryRequest),
}

impl Inspection {
    pub open spec fn spec_tool(self) -> Tool {
        match self {
            Inspection::GetAccount(_) => Tool::GetAccount,
            Inspection::ListAccounts(_) => Tool::ListAccounts,
            Inspection::GetPeriod(_) => Tool::GetPeriod,
            Inspection::ListPeriods(_) => Tool::ListPeriods,
            Inspection::InspectDelivery(_) => Tool::InspectDelivery,
        }
    }

    /// The tool that makes such a call.
    pub fn tool(&self) -> (r: Tool)
        ensures
            r == self.spec_tool(),
    {
        match self {
            Inspection::GetAccount(_) => Tool::GetAccount,
            Inspection::ListAccounts(_) => Tool::ListAccounts,
            Inspection::GetPeriod(_) => Tool::GetPeriod,
            Inspection::ListPeriods(_) => Tool::ListPeriods,
            Inspection::InspectDelivery(_) => Tool::InspectDelivery,
        }
    }
}

/// A call that is still to be made.
#[derive(Debug)]
pub struct ToolCall {
    inspection: Inspection,
}

/// A tool whose call has been handed out.
#[derive(Debug)]
pub struct CalledTool {
    tool: Tool,
}

impl ToolCall {
    /// The call that is to be made.
    pub closed spec fn inspection(self) -> Inspection {
        self.inspection
    }

    /// Hands the call out, which can be done once; what comes of it goes to `execute`.
    pub fn start(self) -> (r: (Inspection, CalledTool))
        ensures
            r.0 == self.inspection(),
            r.1.tool() == self.inspection().spec_tool(),
    {
        let tool = self.inspection.tool();
        (self.inspection, CalledTool { tool })
    }
}

impl CalledTool {
    /// The tool that was called.
    pub closed spec fn tool(self) -> Tool {
        self.tool
    }
}

/// The call that the tool makes with its arguments: they have to be readable, and its own.
pub open spec fn call_with(tool: Tool, arguments: Option<Inspection>) -> Result<
    Inspection,
    ExecuteFailure,
> {
    match arguments {
        Some(inspection) => if inspection.spec_tool() == tool {
            Ok(inspection)
        } else {
            Err(ExecuteErrorOf::InvalidArguments)
        },
        None => Err(ExecuteErrorOf::InvalidArguments),
    }
}

/// The call that the tool makes with its arguments, if those could be read.
pub fn decode(tool: Tool, arguments: Option<Inspection>) -> (r: Result<ToolCall, ExecuteError>)
    ensures
        match call_with(tool, arguments) {
            Ok(inspection) => r matches Ok(call) && call.inspection() == inspection,
            Err(failure) => r matches Err(error) && error@ == failure,
        },
{
    match arguments {
        Some(inspection) => if inspection.tool() == tool {
            Ok(ToolCall { inspection })
        } else {
            Err(ExecuteErrorOf::InvalidArguments)
        },
        None => Err(ExecuteErrorOf::InvalidArguments),
    }
}

/// The one call that a name and arguments lead to, or why they lead to none.
pub open spec fn call_for(name: Text, arguments: Option<Inspection>) -> Result<
    Inspection,
    ExecuteFailure,
> {
    match tool_named(name) {
        Some(tool) => call_with(tool, arguments),
        None => Err(ExecuteErrorOf::NotFound),
    }
}

/// A name and arguments lead to one call that reads, or to none. A name that no tool has is not
/// found, whatever the arguments are; a tool without arguments of its own makes no call; and else
/// the call is the one that the name says, with these arguments.
pub proof fn law_tools_make_one_reading_call(name: Text, arguments: Option<Inspection>)
    ensures
        tool_named(name) is None ==> call_for(name, arguments) == Err::<Inspection, ExecuteFailure>(
            ExecuteErrorOf::NotFound,
        ),
        tool_named(name) is Some && arguments is None ==> call_for(name, arguments) == Err::<
            Inspection,
            ExecuteFailure,
        >(ExecuteErrorOf::InvalidArguments),
        tool_named(name) is Some && arguments is Some && arguments->0.spec_tool() == tool_named(
            name,
        )->0 ==> call_for(name, arguments) is Ok,
        call_for(name, arguments) matches Ok(inspection) ==> {
            let operation = inspection.spec_tool().spec_operation();
            &&& arguments == Some(inspection)
            &&& tool_named(name) == Some(inspection.spec_tool())
            &&& name == "usage_billing_"@ + operation.spec_name()
            &&& operation.spec_permission() == BILLING_READ@
        },
{
    if let Ok(inspection) = call_for(name, arguments) {
        let tool = inspection.spec_tool();
        law_tool_is_found_by_its_name(tool, name);
        law_tools_only_read(tool);
        lemma_named_after_operation(tool);
    }
}

/// A tool is named after the operation that it calls.
proof fn lemma_named_after_operation(tool: Tool)
    ensures
        tool.spec_name() == "usage_billing_"@ + tool.spec_operation().spec_name(),
{
    reveal_strlit("usage_billing_");
    match tool {
        Tool::GetAccount => {
            reveal_strlit("usage_billing_get_account");
            reveal_strlit("get_account");
        },
        Tool::ListAccounts => {
            reveal_strlit("usage_billing_list_accounts");
            reveal_strlit("list_accounts");
        },
        Tool::GetPeriod => {
            reveal_strlit("usage_billing_get_period");
            reveal_strlit("get_period");
        },
        Tool::ListPeriods => {
            reveal_strlit("usage_billing_list_periods");
            reveal_strlit("list_periods");
        },
        Tool::InspectDelivery => {
            reveal_strlit("usage_billing_inspect_delivery");
            reveal_strlit("inspect_delivery");
        },
    }
    assert(tool.spec_name() =~= "usage_billing_"@ + tool.spec_operation().spec_name());
}

/// An error that only the details of a tool failure can name.
pub open spec fn rejection(code: Text, details: Text) -> ExecuteFailure {
    ExecuteErrorOf::ExecutionFailed {
        reason_code: code,
        message: "Usage Billing rejected the inspection operation."@,
        details_json: details,
    }
}

/// The rejection with this code and with the JSON text of its details.
pub fn rejected_with(code: &str, details_json: String) -> (r: ExecuteError)
    ensures
        r@ == rejection(code@, details_json@),
{
    ExecuteErrorOf::ExecutionFailed {
        reason_code: code.to_owned(),
        message: "Usage Billing rejected the inspection operation.".to_owned(),
        details_json,
    }
}

pub fn rejected(code: &str) -> (r: ExecuteError)
    ensures
        r@ == rejection(code@, json_object("domain_error"@, code@, None)),
{
    rejected_with(code, write_object("domain_error", code, None))
}

/// How a declared error of an operation is told by a tool: by its kind, or by its code.
pub open spec fn error_kind(error: BillingError) -> Result<ExecuteFailure, Text> {
    match error {
        BillingError::InvalidRequest => Ok(ExecuteErrorOf::InvalidArguments),
        BillingError::DeliveryNotFound => Ok(ExecuteErrorOf::NotFound),
        BillingError::NotFound => Ok(ExecuteErrorOf::NotFound),
        BillingError::Forbidden => Ok(ExecuteErrorOf::PermissionDenied),
        BillingError::Unauthenticated => Ok(ExecuteErrorOf::PermissionDenied),
        BillingError::AccountDisabled => Err("account_disabled"@),
        BillingError::IdempotencyConflict => Err("idempotency_conflict"@),
        BillingError::InvalidResolution => Err("invalid_resolution"@),
        BillingError::PeriodConflict => Err("period_conflict"@),
        BillingError::RevisionConflict => Err("revision_conflict"@),
        BillingError::SourceRejected => Err("source_rejected"@),
        BillingError::Unknown => Err("unknown_domain_error"@),
    }
}

/// What a tool reports of a declared error of the operation.
pub open spec fn tool_failure(error: BillingError) -> ExecuteFailure {
    match error_kind(error) {
        Ok(kind) => kind,
        Err(code) => rejection(code, json_object("domain_error"@, code, None)),
    }
}

pub fn tool_error(error: BillingError) -> (r: ExecuteError)
    ensures
        r@ == tool_failure(error),
{
    match error {
        BillingError::InvalidRequest => ExecuteErrorOf::InvalidArguments,
        BillingError::DeliveryNotFound | BillingError::NotFound => ExecuteErrorOf::NotFound,
        BillingError::Forbidden | BillingError::Unauthenticated => ExecuteErrorOf::PermissionDenied,
        BillingError::AccountDisabled => rejected("account_disabled"),
        BillingError::IdempotencyConflict => rejected("idempotency_conflict"),
        BillingError::InvalidResolution => rejected("invalid_resolution"),
        BillingError::PeriodConflict => rejected("period_conflict"),
        BillingError::RevisionConflict => rejected("revision_conflict"),
        BillingError::SourceRejected => rejected("source_rejected"),
        BillingError::Unknown => rejected("unknown_domain_error"),
    }
}

/// What came of the operation that a tool called, its answer written as JSON.
#[derive(Debug, PartialEq, Eq)]
pub enum ToolOutcome<R> {
    Answered(String),
    Unwritable { error: String },
    Declared(BillingError),
    Failed(R),
}

/// What the tool says of itself beside its answer.
pub open spec fn tool_metadata(tool: Tool) -> Text {
    json_object("tool"@, tool.spec_name(), Some(("read_only"@, true)))
}

/// `error` is the declared error `failure` of a tool.
pub open spec fn is_tool_failure<R>(
    error: PluginError<ExecuteError, R>,
    failure: ExecuteFailure,
) -> bool {
    error matches PluginError::Domain(declared) && declared@ == failure
}

/// What the called tool answers.
pub fn execute<R>(called: CalledTool, outcome: ToolOutcome<R>) -> (r: Result<
    ExecuteResponse,
    PluginError<ExecuteError, R>,
>)
    ensures
        match outcome {
            ToolOutcome::Answered(content) => {
                &&& r matches Ok(response)
                &&& response.content@ == content@
                &&& response.metadata_json@ == tool_metadata(called.tool())
            },
            ToolOutcome::Unwritable { error } => r is Err && is_plugin_failure(
                r->Err_0,
                "Usage Billing Tool could not serialize its response: "@ + error@,
            ),
            ToolOutcome::Declared(error) => r is Err && is_tool_failure(
                r->Err_0,
                tool_failure(error),
            ),
            ToolOutcome::Failed(own) => r == Err::<ExecuteResponse, PluginError<ExecuteError, R>>(
                PluginError::Runtime(RuntimeFailure::Dependency(own)),
            ),
        },
{
    match outcome {
        ToolOutcome::Answered(content) => Ok(
            ExecuteResponse {
                content,
                metadata_json: write_object("tool", called.tool.name(), Some(("read_only", true))),
            },
        ),
        ToolOutcome::Unwritable { error } => Err(
            PluginError::Runtime(
                RuntimeFailure::PluginFailure {
                    detail: "Usage Billing Tool could not serialize its response: ".to_owned().concat(
                        error.as_str(),
                    ),
                },
            ),
        ),
        ToolOutcome::Declared(error) => Err(PluginError::Domain(tool_error(error))),
        ToolOutcome::Failed(own) => Err(PluginError::Runtime(RuntimeFailure::Dependency(own))),
    }
}

/// How the catalog shows a tool: by its name, with what it does, with its schema, and safe to be run
/// beside others.
pub proof fn law_tools_are_shown(tool: Tool, schema: Text)
    ensures
        tool_shown(tool, schema).name == tool.spec_name(),
        tool_shown(tool, schema).description == tool.spec_description(),
        tool_shown(tool, schema).input_schema_json == schema,
        tool_shown(tool, schema).execution == ToolExecutionClass::ParallelSafe,
        match tool {
            Tool::GetAccount => tool.spec_description()
                == "Get one billable account for authorized inspection."@,
            Tool::ListAccounts => tool.spec_description()
                == "List billable accounts with bounded cursor pagination."@,
            Tool::GetPeriod => tool.spec_description()
                == "Get one immutable usage-billing period snapshot."@,
            Tool::ListPeriods => tool.spec_description()
                == "List immutable usage-billing period snapshots with bounded cursor pagination."@,
            Tool::InspectDelivery => tool.spec_description()
                == "Inspect one provider-neutral billing delivery without reconciling or resolving it."@,
        },
        exists|i: int| 0 <= i < all_tools().len() && #[trigger] all_tools()[i] == tool,
        all_tools().no_duplicates(),
{
    let all = all_tools();
    assert(all[0] == Tool::GetAccount);
    assert(all[1] == Tool::ListAccounts);
    assert(all[2] == Tool::GetPeriod);
    assert(all[3] == Tool::ListPeriods);
    assert(all[4] == Tool::InspectDelivery);
}

/// How a tool tells the declared errors of an operation: unusable arguments, what is not found and
/// what is not allowed by their kinds, and every other error by its code.
pub proof fn law_tools_tell_declared_errors(error: BillingError)
    ensures
        tool_failure(error) is InvalidArguments <==> error == BillingError::InvalidRequest,
        tool_failure(error) is NotFound <==> error == BillingError::NotFound || error
            == BillingError::DeliveryNotFound,
        tool_failure(error) is PermissionDenied <==> error == BillingError::Forbidden || error
            == BillingError::Unauthenticated,
        tool_failure(error) matches ExecuteErrorOf::ExecutionFailed {
            reason_code,
            message,
            details_json,
        } ==> {
            &&& reason_code == match error {
                BillingError::AccountDisabled => "account_disabled"@,
                BillingError::IdempotencyConflict => "idempotency_conflict"@,
                BillingError::InvalidResolution => "invalid_resolution"@,
                BillingError::PeriodConflict => "period_conflict"@,
                BillingError::RevisionConflict => "revision_conflict"@,
                BillingError::SourceRejected => "source_rejected"@,
                _ => "unknown_domain_error"@,
            }
            &&& message == "Usage Billing rejected the inspection operation."@
            &&& details_json == json_object("domain_error"@, reason_code, None)
        },
{
}

/// What a tool says of itself beside its answer: its name, and that it only reads.
pub proof fn law_tools_say_that_they_read(tool: Tool)
    ensures
        tool_metadata(tool) == json_object("tool"@, tool.spec_name(), Some(("read_only"@, true))),
{
}

} // verus!
