//! The configuration of the plugin and what makes it valid.

use vstd::prelude::*;
use vstd::string::*;

use crate::error::RuntimeFailure;
use crate::model::models;
use crate::schema::{check_schema, schema_name_accepted};
use crate::text::{identifier_accepted, valid_identifier, IntoText, Text};

verus! {

pub const MAX_CALLERS: usize = 64;

/// The configuration of the plugin.
#[derive(Clone, Debug, PartialEq, Eq)]
pub struct UsageBillingConfig {
    pub schema: String,
    pub database_url_secret: String,
    pub auth_issuer: String,
    pub auth_assertion_public_key: String,
    pub admin_callers: Vec<String>,
    pub worker_callers: Vec<String>,
    pub delivery_lease_seconds: i64,
    pub max_delivery_attempts: i32,
    pub max_meters_per_account: usize,
}

/// What the contracts speak of in place of a configuration.
pub struct ConfigModel {
    pub schema: Text,
    pub database_url_secret: Text,
    pub auth_issuer: Text,
    pub auth_assertion_public_key: Text,
    pub admin_callers: Seq<Text>,
    pub worker_callers: Seq<Text>,
    pub delivery_lease_seconds: i64,
    pub max_delivery_attempts: i32,
    pub max_meters_per_account: usize,
}

impl View for UsageBillingConfig {
    type V = ConfigModel;

    open spec fn view(&self) -> ConfigModel {
        ConfigModel {
            schema: self.schema@,
            database_url_secret: self.database_url_secret@,
            auth_issuer: self.auth_issuer@,
            auth_assertion_public_key: self.auth_assertion_public_key@,
            admin_callers: models(self.admin_callers@),
            worker_callers: models(self.worker_callers@),
            delivery_lease_seconds: self.delivery_lease_seconds,
            max_delivery_attempts: self.max_delivery_attempts,
            max_meters_per_account: self.max_meters_per_account,
        }
    }
}

/// What is wrong with a configuration.
#[derive(Clone, Copy, Debug, PartialEq, Eq, Structural)]
pub enum UsageBillingConfigError {
    InvalidSchema,
    InvalidSecretReference,
    InvalidAuthIssuer,
    InvalidAuthPublicKey,
    InvalidAdminCallers,
    InvalidWorkerCallers,
    InvalidLease,
    InvalidAttempts,
    InvalidMeterLimit,
}

impl UsageBillingConfigError {
    pub open spec fn spec_message(self) -> Text {
        match self {
            UsageBillingConfigError::InvalidSchema => "invalid owned PostgreSQL schema"@,
            UsageBillingConfigError::InvalidSecretReference =>
            "invalid database URL secret reference"@,
            UsageBillingConfigError::InvalidAuthIssuer => "invalid Auth issuer"@,
            UsageBillingConfigError::InvalidAuthPublicKey =>
            "invalid Auth assertion public key"@,
            UsageBillingConfigError::InvalidAdminCallers =>
            "admin_callers must contain unique exact Instance keys"@,
            UsageBillingConfigError::InvalidWorkerCallers =>
            "worker_callers must contain unique exact Instance keys"@,
            UsageBillingConfigError::InvalidLease =>
            "delivery_lease_seconds must be between 5 and 3600"@,
            UsageBillingConfigError::InvalidAttempts =>
            "max_delivery_attempts must be between 1 and 100"@,
            UsageBillingConfigError::InvalidMeterLimit =>
            "max_meters_per_account must be between 1 and 200"@,
        }
    }

    /// What is reported of the error.
    pub fn message(self) -> (r: &'static str)
        ensures
            r@ == self.spec_message(),
    {
        match self {
            UsageBillingConfigError::InvalidSchema => "invalid owned PostgreSQL schema",
            UsageBillingConfigError::InvalidSecretReference =>
            "invalid database URL secret reference",
            UsageBillingConfigError::InvalidAuthIssuer => "invalid Auth issuer",
            UsageBillingConfigError::InvalidAuthPublicKey => "invalid Auth assertion public key",
            UsageBillingConfigError::InvalidAdminCallers =>
            "admin_callers must contain unique exact Instance keys",
            UsageBillingConfigError::InvalidWorkerCallers =>
            "worker_callers must contain unique exact Instance keys",
            UsageBillingConfigError::InvalidLease =>
            "delivery_lease_seconds must be between 5 and 3600",
            UsageBillingConfigError::InvalidAttempts =>
            "max_delivery_attempts must be between 1 and 100",
            UsageBillingConfigError::InvalidMeterLimit =>
            "max_meters_per_account must be between 1 and 200",
        }
    }
}

/// The text is the URL-safe base64 of an Ed25519 public key.
pub uninterp spec fn assertion_key_accepted(public_key: Seq<char>) -> bool;

/// Whether `lenso_auth_sdk::ActorAssertionVerifier::from_public_key_base64` takes the key. It
/// decodes the key and keeps the issuer unread, so that whether it succeeds is a matter of the key
/// alone.
#[verifier::external_body]
fn takes_assertion_key(issuer: &str, public_key: &str) -> (r: bool)
    ensures
        r == assertion_key_accepted(public_key@),
{
    lenso_auth_sdk::ActorAssertionVerifier::from_public_key_base64(issuer, public_key).is_ok()
}

/// One to sixty-four callers, all different, each of them an identifier.
pub open spec fn callers_accepted(callers: Seq<Text>) -> bool {
    &&& 1 <= callers.len() <= MAX_CALLERS
    &&& forall|i: int| 0 <= i < callers.len() ==> identifier_accepted(#[trigger] callers[i], 256)
    &&& callers.no_duplicates()
}

/// What is wrong with the configuration, the first of it, given whether its key is taken.
pub open spec fn config_fault(config: ConfigModel, key_accepted: bool) -> Option<
    UsageBillingConfigError,
> {
    if !schema_name_accepted(config.schema) {
        Some(UsageBillingConfigError::InvalidSchema)
    } else if !identifier_accepted(config.database_url_secret, 256) {
        Some(UsageBillingConfigError::InvalidSecretReference)
    } else if !identifier_accepted(config.auth_issuer, 256) {
        Some(UsageBillingConfigError::InvalidAuthIssuer)
    } else if !key_accepted {
        Some(UsageBillingConfigError::InvalidAuthPublicKey)
    } else if !callers_accepted(config.admin_callers) {
        Some(UsageBillingConfigError::InvalidAdminCallers)
    } else if !callers_accepted(config.worker_callers) {
        Some(UsageBillingConfigError::InvalidWorkerCallers)
    } else if !(5 <= config.delivery_lease_seconds <= 3_600) {
        Some(UsageBillingConfigError::InvalidLease)
    } else if !(1 <= config.max_delivery_attempts <= 100) {
        Some(UsageBillingConfigError::InvalidAttempts)
    } else if !(1 <= config.max_meters_per_account <= 200) {
        Some(UsageBillingConfigError::InvalidMeterLimit)
    } else {
        None
    }
}

/// What is wrong with the configuration, the first of it.
pub open spec fn config_error(config: ConfigModel) -> Option<UsageBillingConfigError> {
    config_fault(config, assertion_key_accepted(config.auth_assertion_public_key))
}

pub fn validate_callers(callers: &Vec<String>) -> (r: Result<(), ()>)
    ensures
        r is Ok <==> callers_accepted(models(callers@)),
{
    if callers.len() == 0 || callers.len() > MAX_CALLERS {
        return Err(());
    }
    let ghost texts = models(callers@);
    let mut i: usize = 0;
    while i < callers.len()
        invariant
            i <= callers@.len(),
            texts == models(callers@),
            forall|j: int| 0 <= j < i ==> identifier_accepted(#[trigger] texts[j], 256),
            forall|j: int, k: int| 0 <= j < k < i ==> #[trigger] texts[j] != #[trigger] texts[k],
        decreases callers@.len() - i,
    {
        assert(texts[i as int] == callers@[i as int]@);
        if !valid_identifier(callers[i].as_str(), 256) {
            return Err(());
        }
        let mut j: usize = 0;
        while j < i
            invariant
                j <= i < callers@.len(),
                texts == models(callers@),
                forall|k: int| 0 <= k < j ==> #[trigger] texts[k] != texts[i as int],
            decreases i - j,
        {
            if callers[j] == callers[i] {
                assert(texts[j as int] == texts[i as int]);
                return Err(());
            }
            j = j + 1;
        }
        i = i + 1;
    }
    Ok(())
}

/// What an assertion is verified with: the issuer it has to come from, and that issuer's key.
#[derive(Debug, PartialEq, Eq)]
pub struct AssertionAuthority {
    pub issuer: String,
    pub public_key: String,
}

impl UsageBillingConfig {
    /// A configuration, if it is valid.
    pub fn new<S: IntoText, D: IntoText, I: IntoText, K: IntoText>(
        schema: S,
        database_url_secret: D,
        auth_issuer: I,
        auth_assertion_public_key: K,
        admin_callers: Vec<String>,
        worker_callers: Vec<String>,
        delivery_lease_seconds: i64,
        max_delivery_attempts: i32,
        max_meters_per_account: usize,
    ) -> (r: Result<Self, UsageBillingConfigError>)
        ensures
            ({
                let wanted = ConfigModel {
                    schema: schema.text(),
                    database_url_secret: database_url_secret.text(),
                    auth_issuer: auth_issuer.text(),
                    auth_assertion_public_key: auth_assertion_public_key.text(),
                    admin_callers: models(admin_callers@),
                    worker_callers: models(worker_callers@),
                    delivery_lease_seconds,
                    max_delivery_attempts,
                    max_meters_per_account,
                };
                match config_error(wanted) {
                    Some(error) => r == Err::<Self, UsageBillingConfigError>(error),
                    None => r is Ok && r->Ok_0@ == wanted,
                }
            }),
    {
        let config = UsageBillingConfig {
            schema: schema.into_text(),
            database_url_secret: database_url_secret.into_text(),
            auth_issuer: auth_issuer.into_text(),
            auth_assertion_public_key: auth_assertion_public_key.into_text(),
            admin_callers,
            worker_callers,
            delivery_lease_seconds,
            max_delivery_attempts,
            max_meters_per_account,
        };
        match config.validate() {
            Ok(_) => Ok(config),
            Err(error) => Err(error),
        }
    }

    /// Checks everything, given whether the assertion key is taken.
    pub fn check(&self, key_accepted: bool) -> (r: Result<(), UsageBillingConfigError>)
        ensures
            match config_fault(self@, key_accepted) {
                Some(error) => r == Err::<(), UsageBillingConfigError>(error),
                None => r is Ok,
            },
    {
        if check_schema(self.schema.as_str()).is_err() {
            return Err(UsageBillingConfigError::InvalidSchema);
        }
        if !valid_identifier(self.database_url_secret.as_str(), 256) {
            return Err(UsageBillingConfigError::InvalidSecretReference);
        }
        if !valid_identifier(self.auth_issuer.as_str(), 256) {
            return Err(UsageBillingConfigError::InvalidAuthIssuer);
        }
        if !key_accepted {
            return Err(UsageBillingConfigError::InvalidAuthPublicKey);
        }
        if validate_callers(&self.admin_callers).is_err() {
            return Err(UsageBillingConfigError::InvalidAdminCallers);
        }
        if validate_callers(&self.worker_callers).is_err() {
            return Err(UsageBillingConfigError::InvalidWorkerCallers);
        }
        if self.delivery_lease_seconds < 5 || self.delivery_lease_seconds > 3_600 {
            return Err(UsageBillingConfigError::InvalidLease);
        }
        if self.max_delivery_attempts < 1 || self.max_delivery_attempts > 100 {
            return Err(UsageBillingConfigError::InvalidAttempts);
        }
        if self.max_meters_per_account < 1 || self.max_meters_per_account > 200 {
            return Err(UsageBillingConfigError::InvalidMeterLimit);
        }
        Ok(())
    }

    pub fn validate(&self) -> (r: Result<(), UsageBillingConfigError>)
        ensures
            match config_error(self@) {
                Some(error) => r == Err::<(), UsageBillingConfigError>(error),
                None => r is Ok,
            },
    {
        let key_accepted = takes_assertion_key(
            self.auth_issuer.as_str(),
            self.auth_assertion_public_key.as_str(),
        );
        self.check(key_accepted)
    }

    /// What an assertion is verified with, if the key is one.
    pub fn assertion_authority<R>(&self) -> (r: Result<AssertionAuthority, RuntimeFailure<R>>)
        ensures
            match r {
                Ok(authority) => {
                    &&& assertion_key_accepted(self@.auth_assertion_public_key)
                    &&& authority.issuer@ == self@.auth_issuer
                    &&& authority.public_key@ == self@.auth_assertion_public_key
                },
                Err(failure) => {
                    &&& !assertion_key_accepted(self@.auth_assertion_public_key)
                    &&& failure matches RuntimeFailure::InvalidResolvedPlan { detail }
                    &&& detail@ == "Usage Billing Auth verification key is invalid"@
                },
            },
    {
        if takes_assertion_key(
            self.auth_issuer.as_str(),
            self.auth_assertion_public_key.as_str(),
        ) {
            Ok(
                AssertionAuthority {
                    issuer: self.auth_issuer.clone(),
                    public_key: self.auth_assertion_public_key.clone(),
                },
            )
        } else {
            Err(
                RuntimeFailure::InvalidResolvedPlan {
                    detail: "Usage Billing Auth verification key is invalid".to_owned(),
                },
            )
        }
    }
}

/// An error of the configuration, as the failure of the plan that it came with.
pub fn config_failure<R>(error: UsageBillingConfigError) -> (r: RuntimeFailure<R>)
    ensures
        r matches RuntimeFailure::InvalidResolvedPlan { detail } && detail@
            == "Usage Billing configuration is invalid: "@ + error.spec_message(),
{
    RuntimeFailure::InvalidResolvedPlan {
        detail: "Usage Billing configuration is invalid: ".to_owned().concat(error.message()),
    }
}

pub fn validate_config<R>(config: &UsageBillingConfig) -> (r: Result<(), RuntimeFailure<R>>)
    ensures
        match config_error(config@) {
            None => r is Ok,
            Some(error) => r is Err && (r->Err_0 matches RuntimeFailure::InvalidResolvedPlan {
                detail,
            } && detail@ == "Usage Billing configuration is invalid: "@ + error.spec_message()),
        },
{
    match config.validate() {
        Ok(_) => Ok(()),
        Err(error) => Err(config_failure(error)),
    }
}

/// A configuration is spoken of by what its fields hold.
pub proof fn law_configurations_are_spoken_of(config: UsageBillingConfig)
    ensures
        config@.schema == config.schema@,
        config@.database_url_secret == config.database_url_secret@,
        config@.auth_issuer == config.auth_issuer@,
        config@.auth_assertion_public_key == config.auth_assertion_public_key@,
        config@.admin_callers == models(config.admin_callers@),
        config@.worker_callers == models(config.worker_callers@),
        config@.delivery_lease_seconds == config.delivery_lease_seconds,
        config@.max_delivery_attempts == config.max_delivery_attempts,
        config@.max_meters_per_account == config.max_meters_per_account,
{
}

/// Callers are accepted exactly when there are one to sixty-four of them, each an identifier of at
/// most 256 bytes, and no two alike.
pub proof fn law_accepted_callers(callers: Seq<Text>)
    ensures
        callers_accepted(callers) <==> {
            &&& 1 <= callers.len() <= 64
            &&& forall|i: int|
                0 <= i < callers.len() ==> identifier_accepted(#[trigger] callers[i], 256)
            &&& forall|i: int, j: int|
                0 <= i < j < callers.len() ==> #[trigger] callers[i] != #[trigger] callers[j]
        },
{
}

/// A configuration is valid exactly when every part of it is, and each error says that its part is
/// not.
pub proof fn law_valid_configurations(config: ConfigModel)
    ensures
        config_error(config) is None <==> {
            &&& schema_name_accepted(config.schema)
            &&& identifier_accepted(config.database_url_secret, 256)
            &&& identifier_accepted(config.auth_issuer, 256)
            &&& assertion_key_accepted(config.auth_assertion_public_key)
            &&& callers_accepted(config.admin_callers)
            &&& callers_accepted(config.worker_callers)
            &&& 5 <= config.delivery_lease_seconds <= 3600
            &&& 1 <= config.max_delivery_attempts <= 100
            &&& 1 <= config.max_meters_per_account <= 200
        },
        config_error(config) matches Some(error) ==> match error {
            UsageBillingConfigError::InvalidSchema => !schema_name_accepted(config.schema),
            UsageBillingConfigError::InvalidSecretReference => !identifier_accepted(
                config.database_url_secret,
                256,
            ),
            UsageBillingConfigError::InvalidAuthIssuer => !identifier_accepted(
                config.auth_issuer,
                256,
            ),
            UsageBillingConfigError::InvalidAuthPublicKey => !assertion_key_accepted(
                config.auth_assertion_public_key,
            ),
            UsageBillingConfigError::InvalidAdminCallers => !callers_accepted(config.admin_callers),
            UsageBillingConfigError::InvalidWorkerCallers => !callers_accepted(
                config.worker_callers,
            ),
            UsageBillingConfigError::InvalidLease => !(5 <= config.delivery_lease_seconds <= 3600),
            UsageBillingConfigError::InvalidAttempts => !(1 <= config.max_delivery_attempts <= 100),
            UsageBillingConfigError::InvalidMeterLimit => !(1 <= config.max_meters_per_account
                <= 200),
        },
{
}

/// What is reported of each error of a configuration.
pub proof fn law_configuration_errors_are_reported(error: UsageBillingConfigError)
    ensures
        match error {
            UsageBillingConfigError::InvalidSchema => error.spec_message()
                == "invalid owned PostgreSQL schema"@,
            UsageBillingConfigError::InvalidSecretReference => error.spec_message()
                == "invalid database URL secret reference"@,
            UsageBillingConfigError::InvalidAuthIssuer => error.spec_message()
                == "invalid Auth issuer"@,
            UsageBillingConfigError::InvalidAuthPublicKey => error.spec_message()
                == "invalid Auth assertion public key"@,
            UsageBillingConfigError::InvalidAdminCallers => error.spec_message()
                == "admin_callers must contain unique exact Instance keys"@,
            UsageBillingConfigError::InvalidWorkerCallers => error.spec_message()
                == "worker_callers must contain unique exact Instance keys"@,
            UsageBillingConfigError::InvalidLease => error.spec_message()
                == "delivery_lease_seconds must be between 5 and 3600"@,
            UsageBillingConfigError::InvalidAttempts => error.spec_message()
                == "max_delivery_attempts must be between 1 and 100"@,
            UsageBillingConfigError::InvalidMeterLimit => error.spec_message()
                == "max_meters_per_account must be between 1 and 200"@,
        },
{
}

} // verus!
