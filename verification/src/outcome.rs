//! Data model of a validation run: the tagged outcome of the pipeline, the
//! request shapes callers hand in, and the fixed-order decision that turns the
//! individual check results into a single outcome.

use vstd::prelude::*;
use vstd::string::StringExecFns;

verus! {

/// The distinct ways a validation can fail.  The pipeline runs its checks in a
/// fixed order, so when several would apply, the kind reported is the first in
/// that order: syntax, domain, role-based alias, disposable domain.
#[derive(Clone, Copy, Debug, PartialEq, Eq, Structural)]
pub enum ErrorKind {
    InvalidSyntax,
    InvalidDomain,
    RoleBasedEmail,
    DisposableEmail,
    DatabaseError,
    ProcessingError,
}

/// Error payload of a failed validation: a stable machine-readable code and a
/// human-readable message.
#[derive(Clone, Debug)]
pub struct EmailValidationError {
    pub code: String,
    pub message: String,
}

/// Outcome of validating a single email address.  A valid address carries
/// `status == Some("VALID")` and no error; an invalid one carries an error and
/// no status.
#[derive(Clone, Debug)]
pub struct EmailValidationResponse {
    pub is_valid: bool,
    pub status: Option<String>,
    pub error: Option<EmailValidationError>,
}

/// Outcome of one email inside a bulk request, correlated by the email string
/// itself rather than by position.
#[derive(Clone, Debug)]
pub struct BulkEmailValidationResult {
    pub email: String,
    pub validation: EmailValidationResponse,
}

/// Aggregate outcome of an inline bulk validation.
#[derive(Clone, Debug)]
pub struct BulkEmailValidationResponse {
    pub results: Vec<BulkEmailValidationResult>,
    pub valid_count: i32,
    pub invalid_count: i32,
}

/// A single-email validation request body.
#[derive(Clone, Debug)]
pub struct EmailRequest {
    pub email: String,
}

/// A bulk validation request body.
#[derive(Clone, Debug)]
pub struct BulkEmailRequest {
    pub emails: Vec<String>,
}

/// Per-request validation options.
#[derive(Clone, Copy, Debug)]
pub struct ValidationQuery {
    pub check_role_based: bool,
}

/// The serializable twin of a validation response: the shape the response
/// cache stores and reads back.
#[derive(Clone, Debug)]
pub struct CachedValidationResponse {
    pub is_valid: bool,
    pub status: Option<String>,
    pub error: Option<EmailValidationError>,
}

impl From<CachedValidationResponse> for EmailValidationResponse {
    /// Rebuilds a response from its cached form, field for field.
    fn from(cached: CachedValidationResponse) -> (r: EmailValidationResponse) {
        EmailValidationResponse {
            is_valid: cached.is_valid,
            status: cached.status,
            error: cached.error,
        }
    }
}

impl vstd::std_specs::convert::FromSpecImpl<CachedValidationResponse> for EmailValidationResponse {
    open spec fn obeys_from_spec() -> bool {
        true
    }

    open spec fn from_spec(cached: CachedValidationResponse) -> Self {
        EmailValidationResponse {
            is_valid: cached.is_valid,
            status: cached.status,
            error: cached.error,
        }
    }
}

impl From<EmailValidationResponse> for CachedValidationResponse {
    /// Prepares a response for the cache, field for field.
    fn from(resp: EmailValidationResponse) -> (r: CachedValidationResponse) {
        CachedValidationResponse { is_valid: resp.is_valid, status: resp.status, error: resp.error }
    }
}

impl vstd::std_specs::convert::FromSpecImpl<EmailValidationResponse> for CachedValidationResponse {
    open spec fn obeys_from_spec() -> bool {
        true
    }

    open spec fn from_spec(resp: EmailValidationResponse) -> Self {
        CachedValidationResponse { is_valid: resp.is_valid, status: resp.status, error: resp.error }
    }
}

/// Failure of a directory lookup (disposable domains, role-based aliases):
/// connectivity or configuration trouble, never a property of the email.
#[derive(Clone, Debug)]
pub struct DbError {
    pub message: String,
}

/// The code string rendered for each error kind.
pub open spec fn spec_code(kind: ErrorKind) -> Seq<char> {
    match kind {
        ErrorKind::InvalidSyntax => "INVALID_SYNTAX"@,
        ErrorKind::InvalidDomain => "INVALID_DOMAIN"@,
        ErrorKind::RoleBasedEmail => "ROLE_BASED_EMAIL"@,
        ErrorKind::DisposableEmail => "DISPOSABLE_EMAIL"@,
        ErrorKind::DatabaseError => "DATABASE_ERROR"@,
        ErrorKind::ProcessingError => "PROCESSING_ERROR"@,
    }
}

/// The fixed message rendered for each error kind.  Database errors carry the
/// message of the underlying failure instead, so they have no fixed text here.
pub open spec fn spec_message(kind: ErrorKind) -> Seq<char> {
    match kind {
        ErrorKind::InvalidSyntax => "Email address has invalid syntax"@,
        ErrorKind::InvalidDomain => "Email domain has no valid DNS records"@,
        ErrorKind::RoleBasedEmail => "Email address uses a role-based local part"@,
        ErrorKind::DisposableEmail => (
            "The email address domain is a provider of disposable email addresses"@
        ),
        ErrorKind::DatabaseError => ""@,
        ErrorKind::ProcessingError => ""@,
    }
}

/// A response that reports the address as valid.
pub open spec fn is_valid_response(r: EmailValidationResponse) -> bool {
    &&& r.is_valid
    &&& r.status matches Some(s) && s@ == "VALID"@
    &&& r.error is None
}

/// A response that reports a failure of the given kind.  The message is pinned
/// only for kinds with a fixed text; database errors carry the lookup's own.
pub open spec fn is_error_response(r: EmailValidationResponse, kind: ErrorKind) -> bool {
    &&& !r.is_valid
    &&& r.status is None
    &&& r.error matches Some(e) && e.code@ == spec_code(kind) && (kind != ErrorKind::DatabaseError
        ==> e.message@ == spec_message(kind))
}

/// A response the pipeline can produce: exactly one of valid / error.
pub open spec fn response_wf(r: EmailValidationResponse) -> bool {
    is_valid_response(r) || (exists|kind: ErrorKind| is_error_response(r, kind))
}

/// Builds the response for a valid address.
pub fn valid_response() -> (r: EmailValidationResponse)
    ensures
        is_valid_response(r),
{
    EmailValidationResponse {
        is_valid: true,
        status: Some(String::from_str("VALID")),
        error: None,
    }
}

/// Renders the code string for an error kind.
pub fn code_string(kind: ErrorKind) -> (r: String)
    ensures
        r@ == spec_code(kind),
{
    match kind {
        ErrorKind::InvalidSyntax => String::from_str("INVALID_SYNTAX"),
        ErrorKind::InvalidDomain => String::from_str("INVALID_DOMAIN"),
        ErrorKind::RoleBasedEmail => String::from_str("ROLE_BASED_EMAIL"),
        ErrorKind::DisposableEmail => String::from_str("DISPOSABLE_EMAIL"),
        ErrorKind::DatabaseError => String::from_str("DATABASE_ERROR"),
        ErrorKind::ProcessingError => String::from_str("PROCESSING_ERROR"),
    }
}

/// Renders the fixed message for an error kind.
pub fn message_string(kind: ErrorKind) -> (r: String)
    ensures
        r@ == spec_message(kind),
{
    match kind {
        ErrorKind::InvalidSyntax => String::from_str("Email address has invalid syntax"),
        ErrorKind::InvalidDomain => String::from_str("Email domain has no valid DNS records"),
        ErrorKind::RoleBasedEmail => String::from_str(
            "Email address uses a role-based local part",
        ),
        ErrorKind::DisposableEmail => String::from_str(
            "The email address domain is a provider of disposable email addresses",
        ),
        ErrorKind::DatabaseError => String::from_str(""),
        ErrorKind::ProcessingError => String::from_str(""),
    }
}

/// Builds the response for a failure with the kind's fixed message.
pub fn error_response(kind: ErrorKind) -> (r: EmailValidationResponse)
    requires
        kind != ErrorKind::DatabaseError,
    ensures
        is_error_response(r, kind),
{
    EmailValidationResponse {
        is_valid: false,
        status: None,
        error: Some(
            EmailValidationError { code: code_string(kind), message: message_string(kind) },
        ),
    }
}

/// Builds the response for a directory-lookup failure, carrying the lookup's
/// own message.
pub fn database_error_response(message: String) -> (r: EmailValidationResponse)
    ensures
        is_error_response(r, ErrorKind::DatabaseError),
        r.error matches Some(e) && e.message == message,
{
    EmailValidationResponse {
        is_valid: false,
        status: None,
        error: Some(
            EmailValidationError { code: code_string(ErrorKind::DatabaseError), message },
        ),
    }
}

/// Turns the results of the individual checks into the pipeline's outcome,
/// honouring the fixed order and its short-circuit semantics: syntax first,
/// then the domain's DNS verdict, then (only when asked) the role-based-alias
/// lookup, then the disposable-domain lookup.  A failed lookup terminates the
/// run as a database error.  Check results that the order never reaches are
/// ignored, so callers that short-circuited may pass any value for them.
pub fn checks_outcome(
    syntax_ok: bool,
    dns_ok: bool,
    check_role_based: bool,
    role: &Result<bool, DbError>,
    disposable: &Result<bool, DbError>,
) -> (r: EmailValidationResponse)
    ensures
        !syntax_ok ==> is_error_response(r, ErrorKind::InvalidSyntax),
        syntax_ok && !dns_ok ==> is_error_response(r, ErrorKind::InvalidDomain),
        syntax_ok && dns_ok && check_role_based && role is Err ==> is_error_response(
            r,
            ErrorKind::DatabaseError,
        ) && r.error->Some_0.message@ == role->Err_0.message@,
        syntax_ok && dns_ok && check_role_based && *role == Ok::<bool, DbError>(true)
            ==> is_error_response(r, ErrorKind::RoleBasedEmail),
        syntax_ok && dns_ok && (!check_role_based || role is Ok && !role->Ok_0) && disposable
            is Err ==> is_error_response(r, ErrorKind::DatabaseError)
            && r.error->Some_0.message@ == disposable->Err_0.message@,
        syntax_ok && dns_ok && (!check_role_based || role is Ok && !role->Ok_0) && *disposable
            == Ok::<bool, DbError>(true) ==> is_error_response(r, ErrorKind::DisposableEmail),
        syntax_ok && dns_ok && (!check_role_based || role is Ok && !role->Ok_0) && *disposable
            == Ok::<bool, DbError>(false) ==> is_valid_response(r),
        response_wf(r),
{
    if !syntax_ok {
        error_response(ErrorKind::InvalidSyntax)
    } else if !dns_ok {
        error_response(ErrorKind::InvalidDomain)
    } else if check_role_based {
        match role {
            Err(e) => database_error_response(e.message.clone()),
            Ok(true) => error_response(ErrorKind::RoleBasedEmail),
            Ok(false) => disposable_outcome(disposable),
        }
    } else {
        disposable_outcome(disposable)
    }
}

/// The last stage of the order: the disposable-domain verdict decides between
/// a valid outcome, a disposable-domain rejection, and a database error.
fn disposable_outcome(disposable: &Result<bool, DbError>) -> (r: EmailValidationResponse)
    ensures
        disposable is Err ==> is_error_response(r, ErrorKind::DatabaseError)
            && r.error->Some_0.message@ == disposable->Err_0.message@,
        *disposable == Ok::<bool, DbError>(true) ==> is_error_response(
            r,
            ErrorKind::DisposableEmail,
        ),
        *disposable == Ok::<bool, DbError>(false) ==> is_valid_response(r),
        response_wf(r),
{
    match disposable {
        Ok(true) => error_response(ErrorKind::DisposableEmail),
        Ok(false) => valid_response(),
        Err(e) => database_error_response(e.message.clone()),
    }
}

/// An authoritative outcome is stable enough to cache: it describes the email
/// itself rather than a transient infrastructure failure.
pub open spec fn spec_authoritative(r: EmailValidationResponse) -> bool {
    r.is_valid || (r.error matches Some(e) && e.code@ != spec_code(ErrorKind::DatabaseError))
}

/// Decides whether an outcome may be written to the response cache: yes for a
/// valid outcome and for every error except a database error.
pub fn should_cache(r: &EmailValidationResponse) -> (b: bool)
    ensures
        b == spec_authoritative(*r),
{
    if r.is_valid {
        true
    } else {
        match &r.error {
            Some(e) => {
                let db_code = code_string(ErrorKind::DatabaseError);
                !string_eq(&e.code, &db_code)
            },
            None => false,
        }
    }
}

/// Character-for-character equality of two strings.
pub fn string_eq(a: &String, b: &String) -> (r: bool)
    ensures
        r == (a@ == b@),
{
    a.eq(b)
}

/// A database-error outcome is never authoritative, so the cache policy keeps
/// it out of the response cache and a later call re-attempts the lookup.
pub proof fn lemma_database_error_never_cached(r: EmailValidationResponse)
    requires
        is_error_response(r, ErrorKind::DatabaseError),
    ensures
        !spec_authoritative(r),
{
}

} // verus!
