//! Authentication decisions: who a request belongs to, and which requests
//! an authenticated route turns away.
use super::errors::VialoError;
use vstd::prelude::*;
use vstd::string::StringExecFns;

verus! {

/// Why a known person may not use the API.
#[derive(Debug, Clone, Copy, PartialEq, Eq, Structural)]
pub enum UserSuspendedReason {
    ManuallySuspended,
    Expired,
    NotVerified,
}

/// Why a request carries no usable identity.
#[derive(Debug, Clone, Copy, PartialEq, Eq, Structural)]
pub enum AuthError {
    Unauthorized,
    InvalidSession,
    Suspended(UserSuspendedReason),
}

pub open spec fn reason_name(r: UserSuspendedReason) -> Seq<char> {
    match r {
        UserSuspendedReason::ManuallySuspended => "manually_suspended"@,
        UserSuspendedReason::Expired => "expired"@,
        UserSuspendedReason::NotVerified => "not_verified"@,
    }
}

pub open spec fn auth_error_name(e: AuthError) -> Seq<char> {
    match e {
        AuthError::Unauthorized => "unauthorized"@,
        AuthError::InvalidSession => "invalid_session"@,
        AuthError::Suspended(_) => "suspended"@,
    }
}

impl UserSuspendedReason {
    /// The reason's name, as clients see it.
    pub fn name(&self) -> (s: String)
        ensures
            s@ == reason_name(*self),
    {
        match self {
            UserSuspendedReason::ManuallySuspended => String::from_str("manually_suspended"),
            UserSuspendedReason::Expired => String::from_str("expired"),
            UserSuspendedReason::NotVerified => String::from_str("not_verified"),
        }
    }
}

impl AuthError {
    /// The error's name, as clients see it.
    pub fn name(&self) -> (s: String)
        ensures
            s@ == auth_error_name(*self),
    {
        match self {
            AuthError::Unauthorized => String::from_str("unauthorized"),
            AuthError::InvalidSession => String::from_str("invalid_session"),
            AuthError::Suspended(_) => String::from_str("suspended"),
        }
    }
}

/// What checking a request's session found.
#[derive(Debug, Clone, Copy, PartialEq, Eq, Structural)]
pub enum SessionCheck {
    /// Authentication is mocked: every request belongs to this account.
    Mock(u128),
    /// No identity provider is configured.
    NoProvider,
    /// Neither a session token nor a session cookie came with the request.
    NoCredentials,
    /// The identity provider rejected the session.
    InvalidSession,
    /// The session has no identity.
    NoIdentity,
    /// The identity's id is not a UUID.
    UnparsableIdentity,
    /// The identity belongs to this account. `expired` is whether its
    /// membership ended (unknown when the account has no end date).
    Account { id: u128, manually_suspended: bool, expired: Option<bool> },
    /// The identity belongs to no account (yet).
    UnknownAccount,
}

/// Who the request belongs to, and why not where it belongs to nobody.
#[derive(Debug, Clone, Copy, PartialEq, Eq, Structural)]
pub struct AuthOutcome {
    pub user: Option<u128>,
    pub error: Option<AuthError>,
}

pub open spec fn outcome_of(check: SessionCheck) -> AuthOutcome {
    match check {
        SessionCheck::Mock(id) => AuthOutcome { user: Some(id), error: None },
        SessionCheck::NoProvider => AuthOutcome { user: None, error: None },
        SessionCheck::NoCredentials => AuthOutcome { user: None, error: Some(AuthError::Unauthorized) },
        SessionCheck::InvalidSession => AuthOutcome {
            user: None,
            error: Some(AuthError::InvalidSession),
        },
        SessionCheck::NoIdentity => AuthOutcome { user: None, error: None },
        SessionCheck::UnparsableIdentity => AuthOutcome { user: None, error: None },
        SessionCheck::Account { id, manually_suspended, expired } => AuthOutcome {
            user: Some(id),
            error: if expired == Some(true) {
                Some(AuthError::Suspended(UserSuspendedReason::Expired))
            } else if manually_suspended {
                Some(AuthError::Suspended(UserSuspendedReason::ManuallySuspended))
            } else {
                None
            },
        },
        SessionCheck::UnknownAccount => AuthOutcome {
            user: None,
            error: Some(AuthError::Suspended(UserSuspendedReason::NotVerified)),
        },
    }
}

/// What the authentication middleware records on a request, given what the
/// session check found. An expired membership outranks a manual suspension.
pub fn auth_outcome(check: SessionCheck) -> (o: AuthOutcome)
    ensures
        o == outcome_of(check),
{
    match check {
        SessionCheck::Mock(id) => AuthOutcome { user: Some(id), error: None },
        SessionCheck::NoProvider => AuthOutcome { user: None, error: None },
        SessionCheck::NoCredentials => AuthOutcome { user: None, error: Some(AuthError::Unauthorized) },
        SessionCheck::InvalidSession => AuthOutcome {
            user: None,
            error: Some(AuthError::InvalidSession),
        },
        SessionCheck::NoIdentity => AuthOutcome { user: None, error: None },
        SessionCheck::UnparsableIdentity => AuthOutcome { user: None, error: None },
        SessionCheck::Account { id, manually_suspended, expired } => {
            let mut error = None;
            if manually_suspended {
                error = Some(AuthError::Suspended(UserSuspendedReason::ManuallySuspended));
            }
            if expired == Some(true) {
                error = Some(AuthError::Suspended(UserSuspendedReason::Expired));
            }
            AuthOutcome { user: Some(id), error }
        },
        SessionCheck::UnknownAccount => AuthOutcome {
            user: None,
            error: Some(AuthError::Suspended(UserSuspendedReason::NotVerified)),
        },
    }
}

/// A found account belongs to the request. An ended membership is
/// recorded as the suspension `Expired` whether or not the account is also
/// manually suspended; a manual suspension alone is recorded as such; only
/// an account that is neither gets no error.
pub proof fn law_account_suspensions(id: u128, manually_suspended: bool, expired: Option<bool>)
    ensures
        outcome_of(SessionCheck::Account { id, manually_suspended, expired }).user == Some(id),
        expired == Some(true) ==> outcome_of(SessionCheck::Account { id, manually_suspended, expired }).error
            == Some(AuthError::Suspended(UserSuspendedReason::Expired)),
        manually_suspended && expired != Some(true) ==> outcome_of(
            SessionCheck::Account { id, manually_suspended, expired },
        ).error == Some(AuthError::Suspended(UserSuspendedReason::ManuallySuspended)),
        outcome_of(SessionCheck::Account { id, manually_suspended, expired }).error is None <==> (
        !manually_suspended && expired != Some(true)),
{
}

/// The refusal of an authenticated route for a request without a user.
pub open spec fn refusal_of(error: Option<AuthError>) -> (u16, Seq<char>, Option<Seq<char>>) {
    match error {
        Some(AuthError::Suspended(r)) => (403, "suspended"@, Some(reason_name(r))),
        Some(e) => (401, auth_error_name(e), None),
        None => (401, "unauthorized"@, None),
    }
}

/// Admits a request to an authenticated route: one with a user passes; any
/// other is refused, with the reason the middleware recorded.
pub fn auth_required(outcome: &AuthOutcome) -> (r: Result<(), VialoError>)
    ensures
        r is Ok <==> outcome.user is Some,
        r matches Err(VialoError::AppError(status, code)) ==> refusal_of(outcome.error) == (
            status,
            code@,
            None::<Seq<char>>,
        ),
        r matches Err(VialoError::AppErrorWithDetails(status, code, details)) ==> refusal_of(
            outcome.error,
        ) == (status, code@, Some(details@)),
        r matches Err(e) ==> (e is AppError || e is AppErrorWithDetails),
{
    if outcome.user.is_some() {
        return Ok(());
    }
    match outcome.error {
        Some(AuthError::Suspended(reason)) => Err(
            VialoError::AppErrorWithDetails(403, String::from_str("suspended"), reason.name()),
        ),
        Some(other) => Err(VialoError::AppError(401, other.name())),
        None => Err(VialoError::AppError(401, String::from_str("unauthorized"))),
    }
}

/// A request that carries neither a session token nor a session cookie is
/// not sent to the identity provider.
pub fn has_session_credentials(token: Option<&str>, cookie_present: bool) -> (b: bool)
    ensures
        b == (token is Some || cookie_present),
{
    token.is_some() || cookie_present
}

} // verus!
