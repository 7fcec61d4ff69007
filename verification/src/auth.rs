//! The values exchanged when logging in and creating an account, and what a login decides from
//! the account it gets back.
use vstd::prelude::*;
use crate::text::{chars_of, concat2, contains, occurs, owned, str_eq};

verus! {

/// Login parameters.
#[derive(Debug, Clone)]
pub struct LoginParams {
    /// User identifier (handle or e-mail)
    pub identifier: String,
    /// Password or app password
    pub password: String,
    /// Optional second-factor token
    pub auth_factor_token: Option<String>,
    /// Service URL (the default service when absent)
    pub service: Option<String>,
}

/// Account creation parameters.
#[derive(Debug, Clone)]
pub struct CreateAccountParams {
    /// E-mail address
    pub email: String,
    /// Handle
    pub handle: String,
    /// Password
    pub password: String,
    /// Optional invite code
    pub invite_code: Option<String>,
    /// Service URL (the default service when absent)
    pub service: Option<String>,
}

/// The result of a login.
#[derive(Debug, Clone)]
pub struct LoginResult {
    /// User DID
    pub did: String,
    /// User handle
    pub handle: String,
    /// E-mail address
    pub email: Option<String>,
    /// Whether the e-mail is confirmed
    pub email_confirmed: bool,
    /// Whether a second factor is enabled
    pub two_factor_enabled: bool,
}


/// The service logged in to when none is given.
pub const DEFAULT_SERVICE: &'static str = "https://bsky.social";

/// Authentication errors; an error of the session manager or of the agent is held as its
/// message.
#[derive(Debug, Clone, PartialEq, Eq)]
pub enum AuthError {
    /// Session manager error
    Session(String),
    /// Agent error
    Agent(String),
    /// Invalid credentials
    InvalidCredentials,
    /// Account not found
    AccountNotFound(String),
    /// No active session
    NoSession,
    /// Session expired
    SessionExpired,
    /// Second factor required
    TwoFactorRequired,
    /// Invalid second-factor token
    Invalid2FAToken,
    /// Account suspended
    AccountSuspended(String),
    /// Account deactivated
    AccountDeactivated,
    /// Network error
    Network(String),
    /// Configuration error
    Config(String),
}

impl AuthError {
    /// The error message.
    pub fn to_string(&self) -> (r: String)
        ensures
            match self {
                AuthError::Session(m) => r@ == "Session error: "@ + m@,
                AuthError::Agent(m) => r@ == "Agent error: "@ + m@,
                AuthError::InvalidCredentials => r@ == "Invalid credentials"@,
                AuthError::AccountNotFound(m) => r@ == "Account not found: "@ + m@,
                AuthError::NoSession => r@ == "No active session"@,
                AuthError::SessionExpired => r@ == "Session expired"@,
                AuthError::TwoFactorRequired => r@ == "Two-factor authentication required"@,
                AuthError::Invalid2FAToken => r@ == "Invalid two-factor authentication token"@,
                AuthError::AccountSuspended(m) => r@ == "Account suspended: "@ + m@,
                AuthError::AccountDeactivated => r@ == "Account deactivated"@,
                AuthError::Network(m) => r@ == "Network error: "@ + m@,
                AuthError::Config(m) => r@ == "Configuration error: "@ + m@,
            },
    {
        match self {
            AuthError::Session(m) => concat2("Session error: ", m.as_str()),
            AuthError::Agent(m) => concat2("Agent error: ", m.as_str()),
            AuthError::InvalidCredentials => owned("Invalid credentials"),
            AuthError::AccountNotFound(m) => concat2("Account not found: ", m.as_str()),
            AuthError::NoSession => owned("No active session"),
            AuthError::SessionExpired => owned("Session expired"),
            AuthError::TwoFactorRequired => owned("Two-factor authentication required"),
            AuthError::Invalid2FAToken => owned("Invalid two-factor authentication token"),
            AuthError::AccountSuspended(m) => concat2("Account suspended: ", m.as_str()),
            AuthError::AccountDeactivated => owned("Account deactivated"),
            AuthError::Network(m) => concat2("Network error: ", m.as_str()),
            AuthError::Config(m) => concat2("Configuration error: ", m.as_str()),
        }
    }
}

/// The refusal that an account status calls for, once its credentials were accepted:
/// `suspended` and `deactivated` refuse the login; any other status, or none, lets it through.
pub fn account_refusal(status: Option<&str>, did: &str) -> (r: Option<AuthError>)
    ensures
        match status {
            Some(st) => if st@ == "suspended"@ {
                r matches Some(AuthError::AccountSuspended(d)) && d@ == did@
            } else if st@ == "deactivated"@ {
                r == Some(AuthError::AccountDeactivated)
            } else {
                r is None
            },
            None => r is None,
        },
{
    match status {
        Some(st) => {
            if str_eq(st, "suspended") {
                Some(AuthError::AccountSuspended(owned(did)))
            } else if str_eq(st, "deactivated") {
                Some(AuthError::AccountDeactivated)
            } else {
                None
            }
        },
        None => None,
    }
}

/// How the session manager failed a login, as far as the login tells failures apart.
#[derive(Debug, Clone, PartialEq, Eq)]
pub enum LoginFailure {
    /// The agent refused the credentials
    InvalidCredentials,
    /// The service answered with an error: its message, and the message of the whole failure
    Service { message: String, text: String },
    /// Any other failure: its message
    Other(String),
}

/// The error a failed login is reported as: refused credentials as such, a service error that
/// asks for a second factor (its message holds `AuthFactorTokenRequired`) as a second factor
/// required, any other failure as a session error carrying its message.
pub fn login_error(failure: &LoginFailure) -> (r: AuthError)
    ensures
        match failure {
            LoginFailure::InvalidCredentials => r == AuthError::InvalidCredentials,
            LoginFailure::Service { message, text } => if occurs(message@, "AuthFactorTokenRequired"@) {
                r == AuthError::TwoFactorRequired
            } else {
                r matches AuthError::Session(m) && m@ == text@
            },
            LoginFailure::Other(text) => r matches AuthError::Session(m) && m@ == text@,
        },
{
    match failure {
        LoginFailure::InvalidCredentials => AuthError::InvalidCredentials,
        LoginFailure::Service { message, text } => {
            if asks_for_second_factor(message.as_str()) {
                AuthError::TwoFactorRequired
            } else {
                AuthError::Session(owned(text.as_str()))
            }
        },
        LoginFailure::Other(text) => AuthError::Session(owned(text.as_str())),
    }
}

/// The error a failed change of the second factor with a token is reported as: a refused token
/// (the message holds `InvalidToken`) as an invalid token, anything else as a network error
/// carrying the message.
pub fn token_change_error(message: &str) -> (r: AuthError)
    ensures
        occurs(message@, "InvalidToken"@) ==> r == AuthError::Invalid2FAToken,
        !occurs(message@, "InvalidToken"@) ==> (r matches AuthError::Network(m) && m@ == message@),
{
    if is_invalid_token(message) {
        AuthError::Invalid2FAToken
    } else {
        AuthError::Network(owned(message))
    }
}

/// What a login reports of an account; an unknown confirmation or second factor counts as
/// absent.
pub fn login_result(
    did: &str,
    handle: &str,
    email: Option<String>,
    email_confirmed: Option<bool>,
    email_auth_factor: Option<bool>,
) -> (r: LoginResult)
    ensures
        r.did@ == did@,
        r.handle@ == handle@,
        r.email == email,
        r.email_confirmed == (email_confirmed == Some(true)),
        r.two_factor_enabled == (email_auth_factor == Some(true)),
{
    LoginResult {
        did: owned(did),
        handle: owned(handle),
        email,
        email_confirmed: match email_confirmed {
            Some(b) => b,
            None => false,
        },
        two_factor_enabled: match email_auth_factor {
            Some(b) => b,
            None => false,
        },
    }
}

/// Whether a service error asks for a second-factor token (its message holds
/// `AuthFactorTokenRequired`).
pub fn asks_for_second_factor(message: &str) -> (r: bool)
    ensures
        r == occurs(message@, "AuthFactorTokenRequired"@),
{
    let m = chars_of(message);
    let p = chars_of("AuthFactorTokenRequired");
    contains(m.as_slice(), p.as_slice())
}

/// Whether a failed second-factor change was refused for its token (the message holds
/// `InvalidToken`).
pub fn is_invalid_token(message: &str) -> (r: bool)
    ensures
        r == occurs(message@, "InvalidToken"@),
{
    let m = chars_of(message);
    let p = chars_of("InvalidToken");
    contains(m.as_slice(), p.as_slice())
}

} // verus!
