//! The PostgreSQL schema that this library's rows live in.

use vstd::prelude::*;
use vstd::string::*;

use crate::text::Text;

verus! {

/// The statements that create the tables of the owned schema. Ids are kept in the order of their
/// code points.
pub const CREATE_USAGE_BILLING: &'static str =
    "CREATE TABLE billing_accounts (
    account_id text COLLATE \"C\" PRIMARY KEY,
    organization_id text COLLATE \"C\" NOT NULL,
    scope_kind text NOT NULL,
    scope_id text NOT NULL,
    subject text NOT NULL,
    currency text NOT NULL,
    status text NOT NULL CHECK (status IN ('active', 'disabled')),
    revision bigint NOT NULL CHECK (revision > 0),
    created_at timestamptz NOT NULL DEFAULT transaction_timestamp(),
    updated_at timestamptz NOT NULL DEFAULT transaction_timestamp()
);
CREATE INDEX billing_accounts_organization ON billing_accounts (organization_id, account_id);
CREATE TABLE billing_meter_mappings (
    account_id text COLLATE \"C\" NOT NULL REFERENCES billing_accounts (account_id),
    mapping_id text COLLATE \"C\" NOT NULL,
    source_scope_kind text NOT NULL,
    source_scope_id text NOT NULL,
    source_subject text NOT NULL,
    source_meter text NOT NULL,
    sink_meter text NOT NULL,
    unit_price_minor text NOT NULL,
    PRIMARY KEY (account_id, mapping_id)
);
CREATE TABLE billing_periods (
    period_id text COLLATE \"C\" PRIMARY KEY,
    account_id text COLLATE \"C\" NOT NULL REFERENCES billing_accounts (account_id),
    organization_id text COLLATE \"C\" NOT NULL,
    period_start timestamptz NOT NULL,
    period_end timestamptz NOT NULL,
    currency text NOT NULL,
    status text NOT NULL CHECK (status IN ('pending', 'delivered', 'failed', 'unknown')),
    account_revision bigint NOT NULL,
    total_amount_minor text NOT NULL,
    created_at timestamptz NOT NULL DEFAULT transaction_timestamp()
);
CREATE INDEX billing_periods_account ON billing_periods (organization_id, account_id, period_id);
CREATE TABLE billing_period_lines (
    delivery_id text COLLATE \"C\" PRIMARY KEY,
    period_id text COLLATE \"C\" NOT NULL REFERENCES billing_periods (period_id),
    mapping_id text COLLATE \"C\" NOT NULL,
    source_meter text NOT NULL,
    sink_meter text NOT NULL,
    quantity text NOT NULL,
    usage_revision bigint NOT NULL,
    unit_price_minor text NOT NULL,
    amount_minor text NOT NULL,
    status text NOT NULL CHECK (status IN ('pending', 'in_flight', 'delivered', 'failed', 'unknown')),
    attempts integer NOT NULL DEFAULT 0 CHECK (attempts >= 0),
    lease_owner text,
    lease_expires_at timestamptz,
    provider_reference text,
    failure_code text,
    updated_at timestamptz NOT NULL DEFAULT transaction_timestamp()
);
CREATE INDEX billing_period_lines_period ON billing_period_lines (period_id, mapping_id);
CREATE INDEX billing_period_lines_open ON billing_period_lines (status, updated_at, delivery_id);
CREATE TABLE billing_commands (
    caller_instance text NOT NULL,
    actor_subject text NOT NULL,
    operation text NOT NULL,
    idempotency_key text NOT NULL,
    request_hash bytea NOT NULL,
    response jsonb NOT NULL,
    created_at timestamptz NOT NULL DEFAULT transaction_timestamp(),
    PRIMARY KEY (caller_instance, actor_subject, operation, idempotency_key)
);";

/// A small ASCII letter.
pub open spec fn small_letter(c: char) -> bool {
    'a' <= c <= 'z'
}

/// A schema that one plugin may own: a small letter and then small letters, digits and underscores,
/// at most sixty-three in all, and none of the names that PostgreSQL keeps for itself or shares.
pub open spec fn schema_name_accepted(name: Text) -> bool {
    &&& 1 <= name.len() <= 63
    &&& small_letter(name[0])
    &&& forall|i: int|
        0 <= i < name.len() ==> small_letter(#[trigger] name[i]) || '0' <= name[i] <= '9' || name[i]
            == '_'
    &&& name != "public"@
    &&& name != "information_schema"@
    &&& !("pg_"@.is_prefix_of(name))
}

/// What is said of a schema name that is not accepted.
pub open spec fn schema_name_message(name: Text) -> Text {
    "invalid owned schema name `"@ + name + "`"@
}

/// What `lenso_postgres_kit::SchemaPlan::new` says of the schema's name. It looks at the name before
/// anything else, so that its `PlanError::InvalidSchemaName` comes exactly for the names that are
/// not accepted, whatever the migrations; `Display` of that error says which name it was.
#[verifier::external_body]
fn name_fault(schema: &str) -> (r: Option<String>)
    ensures
        schema_name_accepted(schema@) ==> r is None,
        !schema_name_accepted(schema@) ==> r is Some && r->0@ == schema_name_message(schema@),
{
    match lenso_postgres_kit::SchemaPlan::new(schema, &[]) {
        Err(error @ lenso_postgres_kit::PlanError::InvalidSchemaName { .. }) => Some(
            error.to_string(),
        ),
        _ => None,
    }
}

/// Whether a plugin may own the schema, and what is said where it may not.
pub fn check_schema(schema: &str) -> (r: Result<(), String>)
    ensures
        match r {
            Ok(_) => schema_name_accepted(schema@),
            Err(message) => !schema_name_accepted(schema@) && message@ == schema_name_message(
                schema@,
            ),
        },
{
    match name_fault(schema) {
        None => Ok(()),
        Some(message) => Err(message),
    }
}

} // verus!
