//! Who may do what: exact callers, an authenticated actor, active membership and a permission.
//!
//! An administrator is admitted in steps. Each step takes what a dependency replied and either
//! turns the administrator away or says what has to be asked next.

use vstd::prelude::*;
use vstd::string::*;

use crate::error::{AuthorizationFailure, Reply, RuntimeFailure};
use crate::model::{models, optional_text};
use crate::text::{id_accepted, same_text, text_accepted, valid_id, Text};

verus! {

pub const CAPABILITY_ID: &'static str = "lenso.usage-billing@1";

pub const BILLING_READ: &'static str = "billing.accounts.read";

pub const BILLING_WRITE: &'static str = "billing.accounts.write";

pub const BILLING_CLOSE: &'static str = "billing.periods.close";

pub const BILLING_RESOLVE: &'static str = "billing.deliveries.resolve";

/// The operations that are for administrators.
#[derive(Clone, Copy, Debug, PartialEq, Eq, Structural)]
pub enum AdminOperation {
    PutAccount,
    GetAccount,
    ListAccounts,
    ClosePeriod,
    GetPeriod,
    ListPeriods,
    InspectDelivery,
    ResolveDelivery,
}

impl AdminOperation {
    pub open spec fn spec_name(self) -> Text {
        match self {
            AdminOperation::PutAccount => "put_account"@,
            AdminOperation::GetAccount => "get_account"@,
            AdminOperation::ListAccounts => "list_accounts"@,
            AdminOperation::ClosePeriod => "close_period"@,
            AdminOperation::GetPeriod => "get_period"@,
            AdminOperation::ListPeriods => "list_periods"@,
            AdminOperation::InspectDelivery => "inspect_delivery"@,
            AdminOperation::ResolveDelivery => "resolve_delivery"@,
        }
    }

    /// The name that an assertion has to be made out for.
    pub fn name(self) -> (r: &'static str)
        ensures
            r@ == self.spec_name(),
    {
        match self {
            AdminOperation::PutAccount => "put_account",
            AdminOperation::GetAccount => "get_account",
            AdminOperation::ListAccounts => "list_accounts",
            AdminOperation::ClosePeriod => "close_period",
            AdminOperation::GetPeriod => "get_period",
            AdminOperation::ListPeriods => "list_periods",
            AdminOperation::InspectDelivery => "inspect_delivery",
            AdminOperation::ResolveDelivery => "resolve_delivery",
        }
    }

    pub open spec fn spec_permission(self) -> Text {
        match self {
            AdminOperation::PutAccount => BILLING_WRITE@,
            AdminOperation::ClosePeriod => BILLING_CLOSE@,
            AdminOperation::ResolveDelivery => BILLING_RESOLVE@,
            _ => BILLING_READ@,
        }
    }

    /// The permission that the operation needs.
    pub fn permission(self) -> (r: &'static str)
        ensures
            r@ == self.spec_permission(),
    {
        match self {
            AdminOperation::PutAccount => BILLING_WRITE,
            AdminOperation::ClosePeriod => BILLING_CLOSE,
            AdminOperation::ResolveDelivery => BILLING_RESOLVE,
            _ => BILLING_READ,
        }
    }
}

/// The organization's membership of a subject.
#[derive(Debug, PartialEq, Eq)]
pub struct CheckMembershipRequest {
    pub organization_id: String,
    pub subject: String,
}

#[derive(Debug, PartialEq, Eq)]
pub struct CheckPermissionRequestScope {
    pub kind: String,
    pub id: String,
}

/// A subject's permission within a scope.
#[derive(Debug, PartialEq, Eq)]
pub struct CheckPermissionRequest {
    pub subject: String,
    pub scope: CheckPermissionRequestScope,
    pub permission: String,
}

/// The caller is known and on the list.
pub open spec fn caller_allowed(caller: Option<Text>, allowed: Seq<Text>) -> bool {
    caller matches Some(instance) && allowed.contains(instance)
}

/// The calling instance, if it is on the list.
pub fn allowed_caller(caller_instance: &Option<String>, allowed: &Vec<String>) -> (r: Option<
    String,
>)
    ensures
        optional_text(r) == if caller_allowed(
            optional_text(*caller_instance),
            models(allowed@),
        ) {
            optional_text(*caller_instance)
        } else {
            None
        },
{
    match caller_instance {
        None => None,
        Some(caller) => {
            let ghost texts = models(allowed@);
            let mut i: usize = 0;
            while i < allowed.len()
                invariant
                    i <= allowed@.len(),
                    texts == models(allowed@),
                    *caller_instance == Some(*caller),
                    forall|j: int| 0 <= j < i ==> #[trigger] texts[j] != caller@,
                decreases allowed@.len() - i,
            {
                if same_text(allowed[i].as_str(), caller.as_str()) {
                    assert(texts[i as int] == caller@);
                    return Some(caller.clone());
                }
                i = i + 1;
            }
            None
        },
    }
}

/// The subject of the actor, if an assertion was accepted and the subject is an id.
pub open spec fn subject_accepted(projected: Option<Text>) -> bool {
    projected matches Some(subject) && id_accepted(subject)
}

/// The subject of the actor; `projected` is the subject of the assertion that came with the call,
/// or nothing where there is none that holds for this very operation.
pub fn authenticated_subject(projected: Option<String>) -> (r: Result<String, ()>)
    ensures
        match r {
            Ok(subject) => subject_accepted(optional_text(projected)) && Some(subject@)
                == optional_text(projected),
            Err(_) => !subject_accepted(optional_text(projected)),
        },
{
    match projected {
        Some(subject) => if valid_id(subject.as_str()) {
            Ok(subject)
        } else {
            Err(())
        },
        None => Err(()),
    }
}

/// Who is asking for what, as far as it is known.
pub struct AdmissionModel {
    pub operation: AdminOperation,
    pub caller: Text,
    pub actor: Text,
    pub organization_id: Text,
}

/// Why an administrator was turned away, as the contracts speak of it.
pub enum RefusalModel<R> {
    Unauthenticated,
    Forbidden,
    InvalidResolvedPlan(Text),
    PluginFailure(Text),
    Internal(Text),
    Failed(R),
}

/// The refusal with the characters of its detail; the kind of a runtime failure is kept.
pub open spec fn refusal_of<R>(failure: AuthorizationFailure<R>) -> RefusalModel<R> {
    match failure {
        AuthorizationFailure::Unauthenticated => RefusalModel::Unauthenticated,
        AuthorizationFailure::Forbidden => RefusalModel::Forbidden,
        AuthorizationFailure::Runtime(RuntimeFailure::Dependency(own)) => RefusalModel::Failed(own),
        AuthorizationFailure::Runtime(RuntimeFailure::PluginFailure { detail }) =>
        RefusalModel::PluginFailure(detail@),
        AuthorizationFailure::Runtime(RuntimeFailure::InvalidResolvedPlan { detail }) =>
        RefusalModel::InvalidResolvedPlan(detail@),
        AuthorizationFailure::Runtime(RuntimeFailure::Internal { detail }) =>
        RefusalModel::Internal(detail@),
    }
}

/// What becomes of a yes-or-no reply: only a plain yes goes on.
pub open spec fn verdict<R>(reply: Reply<bool, R>, rejected: Text) -> Result<(), RefusalModel<R>> {
    match reply {
        Reply::Answered(true) => Ok(()),
        Reply::Answered(false) => Err(RefusalModel::Forbidden),
        Reply::Rejected => Err(RefusalModel::PluginFailure(rejected)),
        Reply::Failed(own) => Err(RefusalModel::Failed(own)),
    }
}

pub open spec fn membership_verdict<R>(reply: Reply<bool, R>) -> Result<(), RefusalModel<R>> {
    verdict(reply, "Organization Membership rejected a Usage Billing authorization query"@)
}

pub open spec fn permission_verdict<R>(reply: Reply<bool, R>) -> Result<(), RefusalModel<R>> {
    verdict(reply, "Access Control rejected a Usage Billing authorization query"@)
}

/// A caller on the list; who acts through it is still to be shown.
#[derive(Debug)]
pub struct ActorCheck {
    operation: AdminOperation,
    caller: String,
}

/// An authenticated actor; whether it is a member is still to be asked.
#[derive(Debug)]
pub struct MembershipCheck {
    operation: AdminOperation,
    caller: String,
    actor: String,
    organization_id: String,
}

/// A member; whether it has the permission is still to be asked.
#[derive(Debug)]
pub struct PermissionCheck {
    operation: AdminOperation,
    caller: String,
    actor: String,
    organization_id: String,
}

impl View for MembershipCheck {
    type V = AdmissionModel;

    closed spec fn view(&self) -> AdmissionModel {
        AdmissionModel {
            operation: self.operation,
            caller: self.caller@,
            actor: self.actor@,
            organization_id: self.organization_id@,
        }
    }
}

impl View for PermissionCheck {
    type V = AdmissionModel;

    closed spec fn view(&self) -> AdmissionModel {
        AdmissionModel {
            operation: self.operation,
            caller: self.caller@,
            actor: self.actor@,
            organization_id: self.organization_id@,
        }
    }
}

/// What a yes-or-no reply means for the administrator.
fn take_reply<R>(reply: Reply<bool, R>, rejected: &str) -> (r: Result<(), AuthorizationFailure<R>>)
    ensures
        match verdict(reply, rejected@) {
            Ok(_) => r is Ok,
            Err(refusal) => r is Err && refusal_of(r->Err_0) == refusal,
        },
{
    match reply {
        Reply::Answered(true) => Ok(()),
        Reply::Answered(false) => Err(AuthorizationFailure::Forbidden),
        Reply::Rejected => Err(
            AuthorizationFailure::Runtime(
                RuntimeFailure::PluginFailure { detail: rejected.to_owned() },
            ),
        ),
        Reply::Failed(own) => Err(AuthorizationFailure::Runtime(RuntimeFailure::Dependency(own))),
    }
}

/// First step: the caller has to be one of the configured ones, exactly.
pub fn authorize_admin<R>(
    operation: AdminOperation,
    caller_instance: &Option<String>,
    admin_callers: &Vec<String>,
) -> (r: Result<ActorCheck, AuthorizationFailure<R>>)
    ensures
        match r {
            Ok(check) => {
                &&& caller_allowed(optional_text(*caller_instance), models(admin_callers@))
                &&& check.for_operation() == operation
                &&& Some(check.by_caller()) == optional_text(*caller_instance)
            },
            Err(failure) => {
                &&& !caller_allowed(optional_text(*caller_instance), models(admin_callers@))
                &&& failure is Forbidden
            },
        },
{
    match allowed_caller(caller_instance, admin_callers) {
        Some(caller) => Ok(ActorCheck { operation, caller }),
        None => Err(AuthorizationFailure::Forbidden),
    }
}

impl ActorCheck {
    pub closed spec fn for_operation(&self) -> AdminOperation {
        self.operation
    }

    pub closed spec fn by_caller(&self) -> Text {
        self.caller@
    }

    /// Second step: the actor has to be authenticated for this operation.
    pub fn authenticated<R>(self, projected: Option<String>, organization_id: &str) -> (r: Result<
        MembershipCheck,
        AuthorizationFailure<R>,
    >)
        ensures
            match r {
                Ok(check) => {
                    &&& subject_accepted(optional_text(projected))
                    &&& check@ == (AdmissionModel {
                        operation: self.for_operation(),
                        caller: self.by_caller(),
                        actor: optional_text(projected)->0,
                        organization_id: organization_id@,
                    })
                },
                Err(failure) => {
                    &&& !subject_accepted(optional_text(projected))
                    &&& failure is Unauthenticated
                },
            },
    {
        match authenticated_subject(projected) {
            Ok(actor) => Ok(
                MembershipCheck {
                    operation: self.operation,
                    caller: self.caller,
                    actor,
                    organization_id: organization_id.to_owned(),
                },
            ),
            Err(_) => Err(AuthorizationFailure::Unauthenticated),
        }
    }
}

impl MembershipCheck {
    /// What the organization's membership has to be asked.
    pub fn request(&self) -> (r: CheckMembershipRequest)
        ensures
            r.organization_id@ == self@.organization_id,
            r.subject@ == self@.actor,
    {
        CheckMembershipRequest {
            organization_id: self.organization_id.clone(),
            subject: self.actor.clone(),
        }
    }

    /// Third step: the actor has to be an active member.
    pub fn answered<R>(self, reply: Reply<bool, R>) -> (r: Result<
        PermissionCheck,
        AuthorizationFailure<R>,
    >)
        ensures
            match membership_verdict(reply) {
                Ok(_) => r is Ok && r->Ok_0@ == self@,
                Err(refusal) => r is Err && refusal_of(r->Err_0) == refusal,
            },
    {
        match take_reply(
            reply,
            "Organization Membership rejected a Usage Billing authorization query",
        ) {
            Ok(_) => Ok(
                PermissionCheck {
                    operation: self.operation,
                    caller: self.caller,
                    actor: self.actor,
                    organization_id: self.organization_id,
                },
            ),
            Err(failure) => Err(failure),
        }
    }
}

impl PermissionCheck {
    /// What access control has to be asked.
    pub fn request(&self) -> (r: CheckPermissionRequest)
        ensures
            r.subject@ == self@.actor,
            r.scope.kind@ == "organization"@,
            r.scope.id@ == self@.organization_id,
            r.permission@ == self@.operation.spec_permission(),
    {
        CheckPermissionRequest {
            subject: self.actor.clone(),
            scope: CheckPermissionRequestScope {
                kind: "organization".to_owned(),
                id: self.organization_id.clone(),
            },
            permission: self.operation.permission().to_owned(),
        }
    }

    /// Last step: the actor has to hold the permission. The caller and the actor are admitted.
    pub fn answered<R>(self, reply: Reply<bool, R>) -> (r: Result<
        (String, String),
        AuthorizationFailure<R>,
    >)
        ensures
            match permission_verdict(reply) {
                Ok(_) => r matches Ok((caller, actor)) && caller@ == self@.caller && actor@
                    == self@.actor,
                Err(refusal) => r is Err && refusal_of(r->Err_0) == refusal,
            },
    {
        match take_reply(reply, "Access Control rejected a Usage Billing authorization query") {
            Ok(_) => Ok((self.caller, self.actor)),
            Err(failure) => Err(failure),
        }
    }
}

/// How the four steps end, one after the other: the admitted caller and actor, or the refusal.
pub open spec fn admission<R>(
    caller: Option<Text>,
    admin_callers: Seq<Text>,
    projected: Option<Text>,
    membership: Reply<bool, R>,
    permission: Reply<bool, R>,
) -> Result<(Text, Text), RefusalModel<R>> {
    if !caller_allowed(caller, admin_callers) {
        Err(RefusalModel::Forbidden)
    } else if !subject_accepted(projected) {
        Err(RefusalModel::Unauthenticated)
    } else {
        match (membership_verdict(membership), permission_verdict(permission)) {
            (Err(refusal), _) => Err(refusal),
            (Ok(_), Err(refusal)) => Err(refusal),
            (Ok(_), Ok(_)) => Ok((caller->0, projected->0)),
        }
    }
}

/// An administrator is admitted exactly when the caller is configured, the actor is authenticated
/// and is an active member, and holds the permission.
pub proof fn law_admitted_exactly_by_all_four<R>(
    caller: Option<Text>,
    admin_callers: Seq<Text>,
    projected: Option<Text>,
    membership: Reply<bool, R>,
    permission: Reply<bool, R>,
)
    ensures
        admission(caller, admin_callers, projected, membership, permission) is Ok <==> {
            &&& caller_allowed(caller, admin_callers)
            &&& subject_accepted(projected)
            &&& membership == Reply::<bool, R>::Answered(true)
            &&& permission == Reply::<bool, R>::Answered(true)
        },
        admission(caller, admin_callers, projected, membership, permission) matches Ok((c, a))
            ==> Some(c) == caller && Some(a) == projected,
{
}

/// A query that a dependency rejects is never taken for a yes, nor for a no: it is reported as a
/// failure of the plugin.
pub proof fn law_rejected_query_is_a_plugin_failure<R>(
    caller: Option<Text>,
    admin_callers: Seq<Text>,
    projected: Option<Text>,
    membership: Reply<bool, R>,
    permission: Reply<bool, R>,
)
    requires
        caller_allowed(caller, admin_callers),
        subject_accepted(projected),
        membership is Rejected || (membership == Reply::<bool, R>::Answered(true)
            && permission is Rejected),
    ensures
        admission(caller, admin_callers, projected, membership, permission) matches Err(refusal)
            && refusal is PluginFailure,
{
}

/// The failure of a dependency is never taken for a yes: it is handed on as it is.
pub proof fn law_dependency_failure_never_admits<R>(
    caller: Option<Text>,
    admin_callers: Seq<Text>,
    projected: Option<Text>,
    membership: Reply<bool, R>,
    permission: Reply<bool, R>,
    own: R,
)
    requires
        caller_allowed(caller, admin_callers),
        subject_accepted(projected),
        membership == Reply::<bool, R>::Failed(own) || (membership == Reply::<bool, R>::Answered(
            true,
        ) && permission == Reply::<bool, R>::Failed(own)),
    ensures
        admission(caller, admin_callers, projected, membership, permission) == Err::<
            (Text, Text),
            RefusalModel<R>,
        >(RefusalModel::Failed(own)),
{
}

/// A caller is allowed exactly when it is one of those on the list, and an actor is accepted
/// exactly when its subject is an id.
pub proof fn law_callers_are_exact(caller: Option<Text>, allowed: Seq<Text>)
    ensures
        caller_allowed(caller, allowed) <==> exists|i: int|
            0 <= i < allowed.len() && Some(#[trigger] allowed[i]) == caller,
        subject_accepted(caller) <==> caller is Some && text_accepted(caller->0, 512, false),
{
    if caller_allowed(caller, allowed) {
        let i = choose|i: int| 0 <= i < allowed.len() && allowed[i] == caller->0;
        assert(Some(allowed[i]) == caller);
    }
}

/// Reading, writing, closing and resolving each need their own permission; and an assertion has to
/// be made out for the very operation.
pub proof fn law_operations_need_their_permissions(operation: AdminOperation)
    ensures
        match operation {
            AdminOperation::PutAccount => operation.spec_permission() == "billing.accounts.write"@
                && operation.spec_name() == "put_account"@,
            AdminOperation::GetAccount => operation.spec_permission() == "billing.accounts.read"@
                && operation.spec_name() == "get_account"@,
            AdminOperation::ListAccounts => operation.spec_permission() == "billing.accounts.read"@
                && operation.spec_name() == "list_accounts"@,
            AdminOperation::ClosePeriod => operation.spec_permission() == "billing.periods.close"@
                && operation.spec_name() == "close_period"@,
            AdminOperation::GetPeriod => operation.spec_permission() == "billing.accounts.read"@
                && operation.spec_name() == "get_period"@,
            AdminOperation::ListPeriods => operation.spec_permission() == "billing.accounts.read"@
                && operation.spec_name() == "list_periods"@,
            AdminOperation::InspectDelivery => operation.spec_permission()
                == "billing.accounts.read"@ && operation.spec_name() == "inspect_delivery"@,
            AdminOperation::ResolveDelivery => operation.spec_permission()
                == "billing.deliveries.resolve"@ && operation.spec_name() == "resolve_delivery"@,
        },
{
}

/// Of the replies of a dependency only a plain yes goes on; a no forbids, a rejected query is a
/// failure of the plugin that says which dependency it was, and a failure is handed on.
pub proof fn law_only_a_yes_goes_on<R>(reply: Reply<bool, R>)
    ensures
        membership_verdict(reply) is Ok <==> reply == Reply::<bool, R>::Answered(true),
        permission_verdict(reply) is Ok <==> reply == Reply::<bool, R>::Answered(true),
        match reply {
            Reply::Answered(yes) => !yes ==> {
                &&& membership_verdict(reply)->Err_0 is Forbidden
                &&& permission_verdict(reply)->Err_0 is Forbidden
            },
            Reply::Rejected => {
                &&& membership_verdict(reply)->Err_0 == RefusalModel::<R>::PluginFailure(
                    "Organization Membership rejected a Usage Billing authorization query"@,
                )
                &&& permission_verdict(reply)->Err_0 == RefusalModel::<R>::PluginFailure(
                    "Access Control rejected a Usage Billing authorization query"@,
                )
            },
            Reply::Failed(own) => {
                &&& membership_verdict(reply)->Err_0 == RefusalModel::<R>::Failed(own)
                &&& permission_verdict(reply)->Err_0 == RefusalModel::<R>::Failed(own)
            },
        },
{
}

/// A refusal is spoken of by its kind and by the characters of its detail.
pub proof fn law_refusals_are_spoken_of<R>(failure: AuthorizationFailure<R>)
    ensures
        refusal_of(failure) is Unauthenticated <==> failure is Unauthenticated,
        refusal_of(failure) is Forbidden <==> failure is Forbidden,
        refusal_of(failure) matches RefusalModel::Failed(own) <==> failure
            matches AuthorizationFailure::Runtime(RuntimeFailure::Dependency(_)),
        refusal_of(failure) matches RefusalModel::Failed(own) ==> failure
            == AuthorizationFailure::<R>::Runtime(RuntimeFailure::Dependency(own)),
        refusal_of(failure) matches RefusalModel::PluginFailure(text) ==> (failure
            matches AuthorizationFailure::Runtime(RuntimeFailure::PluginFailure { detail })
            && detail@ == text),
        refusal_of(failure) matches RefusalModel::InvalidResolvedPlan(text) ==> (failure
            matches AuthorizationFailure::Runtime(RuntimeFailure::InvalidResolvedPlan { detail })
            && detail@ == text),
        refusal_of(failure) matches RefusalModel::Internal(text) ==> (failure
            matches AuthorizationFailure::Runtime(RuntimeFailure::Internal { detail }) && detail@
            == text),
{
}

} // verus!
