//! Failures, and how those of storage and authorization become those of an operation.

use vstd::prelude::*;
use vstd::string::*;

use crate::text::Text;

verus! {

/// What the stored state itself refuses.
#[derive(Clone, Copy, Debug, PartialEq, Eq, Structural)]
pub enum DomainFailure {
    NotFound,
    RevisionConflict,
    IdempotencyConflict,
    PeriodConflict,
    AccountDisabled,
    DeliveryNotFound,
    InvalidResolution,
}

/// A storage operation failed. Nothing of it is kept then.
#[derive(Debug, PartialEq, Eq)]
pub enum StorageErrorOf<T> {
    Domain(DomainFailure),
    Database { operation: T },
    InvalidStored(T),
    Serialization,
}

pub type StorageError = StorageErrorOf<String>;

pub type StorageFailure = StorageErrorOf<Text>;

/// The errors that the operations of the billing capability declare.
#[derive(Clone, Copy, Debug, PartialEq, Eq, Structural)]
pub enum BillingError {
    AccountDisabled,
    DeliveryNotFound,
    Forbidden,
    IdempotencyConflict,
    InvalidRequest,
    InvalidResolution,
    NotFound,
    PeriodConflict,
    RevisionConflict,
    SourceRejected,
    Unauthenticated,
    /// An error that only a later version of the capability names.
    Unknown,
}

pub type PutAccountError = BillingError;

pub type GetAccountError = BillingError;

pub type ListAccountsError = BillingError;

pub type ClosePeriodError = BillingError;

pub type GetPeriodError = BillingError;

pub type ListPeriodsError = BillingError;

pub type ReconcileNextError = BillingError;

pub type InspectDeliveryError = BillingError;

pub type ResolveDeliveryError = BillingError;

/// What came back from a dependency: an answer, an error that it declares, or its own failure.
#[derive(Debug, PartialEq, Eq)]
pub enum Reply<T, R> {
    Answered(T),
    Rejected,
    Failed(R),
}

/// A failure outside the declared errors; `R` is what a dependency reports of its own.
#[derive(Debug, PartialEq, Eq)]
pub enum RuntimeFailure<R> {
    InvalidResolvedPlan { detail: String },
    PluginFailure { detail: String },
    Internal { detail: String },
    Dependency(R),
}

/// Why an operation did not answer: a declared error or a runtime failure.
#[derive(Debug, PartialEq, Eq)]
pub enum PluginError<E, R> {
    Domain(E),
    Runtime(RuntimeFailure<R>),
}

/// Why an administrator was turned away.
#[derive(Debug, PartialEq, Eq)]
pub enum AuthorizationFailure<R> {
    Unauthenticated,
    Forbidden,
    Runtime(RuntimeFailure<R>),
}

impl View for StorageErrorOf<String> {
    type V = StorageFailure;

    open spec fn view(&self) -> StorageFailure {
        match self {
            StorageErrorOf::Domain(failure) => StorageErrorOf::Domain(*failure),
            StorageErrorOf::Database { operation } => StorageErrorOf::Database {
                operation: operation@,
            },
            StorageErrorOf::InvalidStored(message) => StorageErrorOf::InvalidStored(message@),
            StorageErrorOf::Serialization => StorageErrorOf::Serialization,
        }
    }
}

pub open spec fn failure_name(failure: DomainFailure) -> Text {
    match failure {
        DomainFailure::NotFound => "NotFound"@,
        DomainFailure::RevisionConflict => "RevisionConflict"@,
        DomainFailure::IdempotencyConflict => "IdempotencyConflict"@,
        DomainFailure::PeriodConflict => "PeriodConflict"@,
        DomainFailure::AccountDisabled => "AccountDisabled"@,
        DomainFailure::DeliveryNotFound => "DeliveryNotFound"@,
        DomainFailure::InvalidResolution => "InvalidResolution"@,
    }
}

/// What is reported of a storage failure.
pub open spec fn storage_message(failure: StorageFailure) -> Text {
    match failure {
        StorageErrorOf::Domain(failure) => "usage billing domain failure: "@ + failure_name(
            failure,
        ),
        StorageErrorOf::Database { operation } => "PostgreSQL operation `"@ + operation
            + "` failed"@,
        StorageErrorOf::InvalidStored(message) => "stored Usage Billing value is invalid: "@
            + message,
        StorageErrorOf::Serialization => "Usage Billing response serialization failed"@,
    }
}

/// The declared error that goes with a refusal of the stored state.
pub open spec fn declared_error(failure: DomainFailure) -> BillingError {
    match failure {
        DomainFailure::NotFound => BillingError::NotFound,
        DomainFailure::RevisionConflict => BillingError::RevisionConflict,
        DomainFailure::IdempotencyConflict => BillingError::IdempotencyConflict,
        DomainFailure::PeriodConflict => BillingError::PeriodConflict,
        DomainFailure::AccountDisabled => BillingError::AccountDisabled,
        DomainFailure::DeliveryNotFound => BillingError::DeliveryNotFound,
        DomainFailure::InvalidResolution => BillingError::InvalidResolution,
    }
}

/// `error` is the runtime failure of a plugin with this detail.
pub open spec fn is_plugin_failure<E, R>(error: PluginError<E, R>, detail: Text) -> bool {
    error matches PluginError::Runtime(RuntimeFailure::PluginFailure { detail: d }) && d@ == detail
}

/// `error` is what becomes of the storage failure `failure`.
pub open spec fn is_storage_error<R>(
    error: PluginError<BillingError, R>,
    failure: StorageFailure,
) -> bool {
    match failure {
        StorageErrorOf::Domain(domain) => error == PluginError::<BillingError, R>::Domain(
            declared_error(domain),
        ),
        _ => is_plugin_failure(error, storage_message(failure)),
    }
}

impl DomainFailure {
    fn name(self) -> (r: &'static str)
        ensures
            r@ == failure_name(self),
    {
        match self {
            DomainFailure::NotFound => "NotFound",
            DomainFailure::RevisionConflict => "RevisionConflict",
            DomainFailure::IdempotencyConflict => "IdempotencyConflict",
            DomainFailure::PeriodConflict => "PeriodConflict",
            DomainFailure::AccountDisabled => "AccountDisabled",
            DomainFailure::DeliveryNotFound => "DeliveryNotFound",
            DomainFailure::InvalidResolution => "InvalidResolution",
        }
    }
}

impl StorageErrorOf<String> {
    /// What is reported of the failure.
    pub fn message(&self) -> (r: String)
        ensures
            r@ == storage_message(self@),
    {
        match self {
            StorageErrorOf::Domain(failure) => "usage billing domain failure: ".to_owned().concat(
                failure.name(),
            ),
            StorageErrorOf::Database { operation } => "PostgreSQL operation `".to_owned().concat(
                operation.as_str(),
            ).concat("` failed"),
            StorageErrorOf::InvalidStored(message) =>
            "stored Usage Billing value is invalid: ".to_owned().concat(message.as_str()),
            StorageErrorOf::Serialization =>
            "Usage Billing response serialization failed".to_owned(),
        }
    }
}

/// The database refused `operation`.
pub(crate) fn database(operation: &str) -> (r: StorageError)
    ensures
        r@ == (StorageErrorOf::Database { operation: operation@ }),
{
    StorageErrorOf::Database { operation: operation.to_owned() }
}

/// The declared error that goes with a refusal of the stored state.
pub fn map_domain(failure: DomainFailure) -> (r: BillingError)
    ensures
        r == declared_error(failure),
{
    match failure {
        DomainFailure::NotFound => BillingError::NotFound,
        DomainFailure::RevisionConflict => BillingError::RevisionConflict,
        DomainFailure::IdempotencyConflict => BillingError::IdempotencyConflict,
        DomainFailure::PeriodConflict => BillingError::PeriodConflict,
        DomainFailure::AccountDisabled => BillingError::AccountDisabled,
        DomainFailure::DeliveryNotFound => BillingError::DeliveryNotFound,
        DomainFailure::InvalidResolution => BillingError::InvalidResolution,
    }
}

/// A storage failure reported as a runtime failure, whatever it is.
pub fn storage_runtime<E, R>(error: &StorageError) -> (r: PluginError<E, R>)
    ensures
        is_plugin_failure(r, storage_message(error@)),
{
    PluginError::Runtime(RuntimeFailure::PluginFailure { detail: error.message() })
}

/// A storage failure as the failure of an operation: a refusal is declared, the rest is reported.
pub fn storage_to_plugin<R>(error: &StorageError) -> (r: PluginError<BillingError, R>)
    ensures
        is_storage_error(r, error@),
{
    match error {
        StorageErrorOf::Domain(failure) => PluginError::Domain(map_domain(*failure)),
        _ => storage_runtime(error),
    }
}

/// The answer of storage as the answer of an operation.
pub fn map_storage<T, R>(result: Result<T, StorageError>) -> (r: Result<
    T,
    PluginError<BillingError, R>,
>)
    ensures
        match result {
            Ok(value) => r == Ok::<T, PluginError<BillingError, R>>(value),
            Err(error) => r is Err && is_storage_error(r->Err_0, error@),
        },
{
    match result {
        Ok(value) => Ok(value),
        Err(error) => Err(storage_to_plugin(&error)),
    }
}

/// A refused administrator, as the failure of an operation.
pub fn map_authorization<R>(failure: AuthorizationFailure<R>) -> (r: PluginError<BillingError, R>)
    ensures
        r == match failure {
            AuthorizationFailure::Unauthenticated => PluginError::<BillingError, R>::Domain(
                BillingError::Unauthenticated,
            ),
            AuthorizationFailure::Forbidden => PluginError::<BillingError, R>::Domain(
                BillingError::Forbidden,
            ),
            AuthorizationFailure::Runtime(error) => PluginError::<BillingError, R>::Runtime(error),
        },
{
    match failure {
        AuthorizationFailure::Unauthenticated => PluginError::Domain(BillingError::Unauthenticated),
        AuthorizationFailure::Forbidden => PluginError::Domain(BillingError::Forbidden),
        AuthorizationFailure::Runtime(error) => PluginError::Runtime(error),
    }
}

/// A wire value could not be written or read.
pub fn serialization_runtime<E, R>(error: &str) -> (r: PluginError<E, R>)
    ensures
        r matches PluginError::Runtime(RuntimeFailure::Internal { detail }) && detail@
            == "Usage Billing wire serialization failed: "@ + error@,
{
    PluginError::Runtime(
        RuntimeFailure::Internal {
            detail: "Usage Billing wire serialization failed: ".to_owned().concat(error),
        },
    )
}

/// A refusal of storage is declared under its own name; any other failure of storage is reported as
/// a failure of the plugin, with what went wrong.
pub proof fn law_storage_failures_are_reported<R>(
    error: PluginError<BillingError, R>,
    failure: StorageFailure,
)
    requires
        is_storage_error(error, failure),
    ensures
        match failure {
            StorageErrorOf::Domain(refusal) => error == PluginError::<BillingError, R>::Domain(
                match refusal {
                    DomainFailure::NotFound => BillingError::NotFound,
                    DomainFailure::RevisionConflict => BillingError::RevisionConflict,
                    DomainFailure::IdempotencyConflict => BillingError::IdempotencyConflict,
                    DomainFailure::PeriodConflict => BillingError::PeriodConflict,
                    DomainFailure::AccountDisabled => BillingError::AccountDisabled,
                    DomainFailure::DeliveryNotFound => BillingError::DeliveryNotFound,
                    DomainFailure::InvalidResolution => BillingError::InvalidResolution,
                },
            ),
            StorageErrorOf::Database { operation } => error matches PluginError::Runtime(
                RuntimeFailure::PluginFailure { detail },
            ) && detail@ == "PostgreSQL operation `"@ + operation + "` failed"@,
            StorageErrorOf::InvalidStored(message) => error matches PluginError::Runtime(
                RuntimeFailure::PluginFailure { detail },
            ) && detail@ == "stored Usage Billing value is invalid: "@ + message,
            StorageErrorOf::Serialization => error matches PluginError::Runtime(
                RuntimeFailure::PluginFailure { detail },
            ) && detail@ == "Usage Billing response serialization failed"@,
        },
{
}

/// A failure of storage is spoken of by its kind and by the characters of its text.
pub proof fn law_storage_failures_are_spoken_of(error: StorageError)
    ensures
        match error {
            StorageErrorOf::Domain(refusal) => error@ == StorageFailure::Domain(refusal),
            StorageErrorOf::Database { operation } => error@ matches StorageErrorOf::Database {
                operation: text,
            } && text == operation@,
            StorageErrorOf::InvalidStored(message) => error@ matches StorageErrorOf::InvalidStored(
                text,
            ) && text == message@,
            StorageErrorOf::Serialization => error@ is Serialization,
        },
{
}

/// What is said of a failure of storage.
pub proof fn law_storage_messages(refusal: DomainFailure, text: Text)
    ensures
        storage_message(StorageErrorOf::Domain(refusal)) == "usage billing domain failure: "@
            + match refusal {
            DomainFailure::NotFound => "NotFound"@,
            DomainFailure::RevisionConflict => "RevisionConflict"@,
            DomainFailure::IdempotencyConflict => "IdempotencyConflict"@,
            DomainFailure::PeriodConflict => "PeriodConflict"@,
            DomainFailure::AccountDisabled => "AccountDisabled"@,
            DomainFailure::DeliveryNotFound => "DeliveryNotFound"@,
            DomainFailure::InvalidResolution => "InvalidResolution"@,
        },
        storage_message(StorageErrorOf::Database { operation: text })
            == "PostgreSQL operation `"@ + text + "` failed"@,
        storage_message(StorageErrorOf::InvalidStored(text))
            == "stored Usage Billing value is invalid: "@ + text,
        storage_message(StorageErrorOf::Serialization)
            == "Usage Billing response serialization failed"@,
{
}

} // verus!
