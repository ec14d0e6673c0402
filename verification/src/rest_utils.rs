//! Shared plumbing of the administration API: the error envelope returned to
//! clients, the mapping of store errors onto it, and pagination validation.

use vstd::prelude::*;

verus! {

/// Status code of a malformed request.
pub const STATUS_BAD_REQUEST: u16 = 400;

/// Status code of a missing object.
pub const STATUS_NOT_FOUND: u16 = 404;

/// Status code of an unexpected server fault.
pub const STATUS_INTERNAL_SERVER_ERROR: u16 = 500;

/// Status code of a temporarily unavailable collaborator.
pub const STATUS_SERVICE_UNAVAILABLE: u16 = 503;

/// Page size used when a request names none.
pub const DEFAULT_ITEMS_PER_PAGE: u32 = 10;

/// The error envelope returned to API clients.
#[derive(Debug, PartialEq, Eq, Clone)]
pub struct ErrorResp {
    pub status_code: u16,
    pub message: String,
}

/// Ghost shape of the error envelope.
pub struct ErrorRespView {
    pub status_code: u16,
    pub message: Seq<char>,
}

impl View for ErrorResp {
    type V = ErrorRespView;

    open spec fn view(&self) -> ErrorRespView {
        ErrorRespView { status_code: self.status_code, message: self.message@ }
    }
}

/// A failure reported by the metadata store.
#[derive(Debug, PartialEq, Eq, Clone)]
pub enum DbError {
    DuplicateViolation,
    ForeignKeyViolation,
    Other(String),
}

/// Ghost shape of a store failure.
pub enum DbErrorView {
    DuplicateViolation,
    ForeignKeyViolation,
    Other(Seq<char>),
}

impl View for DbError {
    type V = DbErrorView;

    open spec fn view(&self) -> DbErrorView {
        match self {
            DbError::DuplicateViolation => DbErrorView::DuplicateViolation,
            DbError::ForeignKeyViolation => DbErrorView::ForeignKeyViolation,
            DbError::Other(e) => DbErrorView::Other(e@),
        }
    }
}

/// A malformed request: status 400 with the given message.
pub fn bad_request(message: String) -> (r: ErrorResp)
    ensures
        r@.status_code == STATUS_BAD_REQUEST,
        r@.message == message@,
{
    ErrorResp { status_code: STATUS_BAD_REQUEST, message }
}

/// A collaborator that is not available: status 503 naming it.
pub fn service_unavailable(object: &str) -> (r: ErrorResp)
    ensures
        r@.status_code == STATUS_SERVICE_UNAVAILABLE,
        r@.message == object@ + " not available"@,
{
    let mut message = object.to_owned();
    message.append(" not available");
    ErrorResp { status_code: STATUS_SERVICE_UNAVAILABLE, message }
}

/// An unexpected server fault: status 500 with the given message.
pub fn internal_server_error(message: String) -> (r: ErrorResp)
    ensures
        r@.status_code == STATUS_INTERNAL_SERVER_ERROR,
        r@.message == message@,
{
    ErrorResp { status_code: STATUS_INTERNAL_SERVER_ERROR, message }
}

/// A missing object: status 404 naming it.
pub fn not_found(object: &str) -> (r: ErrorResp)
    ensures
        r@.status_code == STATUS_NOT_FOUND,
        r@.message == object@ + " not found"@,
{
    let mut message = object.to_owned();
    message.append(" not found");
    ErrorResp { status_code: STATUS_NOT_FOUND, message }
}

/// A request that left a mandatory field unset.
pub fn required_field(field: &str) -> (r: ErrorResp)
    ensures
        r@.status_code == STATUS_BAD_REQUEST,
        r@.message == "Field "@ + field@ + " must be set"@,
{
    let mut message = String::from_str("Field ");
    message.append(field);
    message.append(" must be set");
    ErrorResp { status_code: STATUS_BAD_REQUEST, message }
}

/// The error envelope a store failure maps to: duplicate and dependency
/// violations are the client's fault, anything else is a server fault
/// carrying the store's message.
pub open spec fn spec_error_resp_of_db(value: DbErrorView) -> ErrorRespView {
    match value {
        DbErrorView::DuplicateViolation => ErrorRespView {
            status_code: STATUS_BAD_REQUEST,
            message: "A record already exists with that name"@,
        },
        DbErrorView::ForeignKeyViolation => ErrorRespView {
            status_code: STATUS_BAD_REQUEST,
            message: "Cannot delete; other records depend on this one"@,
        },
        DbErrorView::Other(e) => ErrorRespView {
            status_code: STATUS_INTERNAL_SERVER_ERROR,
            message: e,
        },
    }
}

impl From<DbError> for ErrorResp {
    fn from(value: DbError) -> (r: ErrorResp) {
        match value {
            DbError::DuplicateViolation => bad_request(
                String::from_str("A record already exists with that name"),
            ),
            DbError::ForeignKeyViolation => bad_request(
                String::from_str("Cannot delete; other records depend on this one"),
            ),
            DbError::Other(e) => ErrorResp {
                status_code: STATUS_INTERNAL_SERVER_ERROR,
                message: e,
            },
        }
    }
}

impl vstd::std_specs::convert::FromSpecImpl<DbError> for ErrorResp {
    open spec fn obeys_from_spec() -> bool {
        false
    }

    open spec fn from_spec(value: DbError) -> ErrorResp {
        arbitrary()
    }
}

/// Map a failed insert: a duplicate violation blames the name, anything else
/// maps as usual.
pub fn map_insert_err(name: &str, error: DbError) -> (r: ErrorResp)
    ensures
        error@ is DuplicateViolation ==> r@.status_code == STATUS_BAD_REQUEST && r@.message
            == name@ + " with that name already exists"@,
        !(error@ is DuplicateViolation) ==> r@ == spec_error_resp_of_db(error@),
{
    if matches!(error, DbError::DuplicateViolation) {
        let mut message = name.to_owned();
        message.append(" with that name already exists");
        bad_request(message)
    } else {
        error_resp_of_db(error)
    }
}

/// Map a failed delete: a dependency violation names the object and its
/// user, anything else maps as usual.
pub fn map_delete_err(name: &str, user: &str, error: DbError) -> (r: ErrorResp)
    ensures
        error@ is ForeignKeyViolation ==> r@.status_code == STATUS_BAD_REQUEST && r@.message
            == "Cannot delete "@ + name@ + "; it is still being used by "@ + user@,
        !(error@ is ForeignKeyViolation) ==> r@ == spec_error_resp_of_db(error@),
{
    if matches!(error, DbError::ForeignKeyViolation) {
        let mut message = String::from_str("Cannot delete ");
        message.append(name);
        message.append("; it is still being used by ");
        message.append(user);
        bad_request(message)
    } else {
        error_resp_of_db(error)
    }
}

/// The error envelope for a store failure.
pub fn error_resp_of_db(error: DbError) -> (r: ErrorResp)
    ensures
        r@ == spec_error_resp_of_db(error@),
{
    match error {
        DbError::DuplicateViolation => bad_request(
            String::from_str("A record already exists with that name"),
        ),
        DbError::ForeignKeyViolation => bad_request(
            String::from_str("Cannot delete; other records depend on this one"),
        ),
        DbError::Other(e) => ErrorResp { status_code: STATUS_INTERNAL_SERVER_ERROR, message: e },
    }
}

/// The fixed envelope for an error that is only logged.
pub fn log_and_map<E>(err: E) -> (r: ErrorResp)
    ensures
        r@.status_code == STATUS_INTERNAL_SERVER_ERROR,
        r@.message == "Something went wrong"@,
{
    ErrorResp {
        status_code: STATUS_INTERNAL_SERVER_ERROR,
        message: String::from_str("Something went wrong"),
    }
}

/// Validate a pagination request: a limit of zero is rejected, a missing
/// limit defaults to ten, and the returned fetch limit is one more than the
/// requested one so the caller can tell whether more results exist.
pub fn validate_pagination_params(starting_after: Option<String>, limit: Option<u32>) -> (r:
    Result<(Option<String>, u32), ErrorResp>)
    requires
        limit matches Some(l) ==> l < u32::MAX,
    ensures
        match limit {
            Some(l) => {
                if l == 0 {
                    r matches Err(e) && e@.status_code == STATUS_BAD_REQUEST && e@.message
                        == "Limit must be greater than 0"@
                } else {
                    r matches Ok((s, fetch)) && fetch == l + 1 && s == starting_after
                }
            },
            None => r matches Ok((s, fetch)) && fetch == DEFAULT_ITEMS_PER_PAGE + 1 && s
                == starting_after,
        },
{
    if let Some(l) = limit {
        if l < 1 {
            return Err(
                ErrorResp {
                    status_code: STATUS_BAD_REQUEST,
                    message: String::from_str("Limit must be greater than 0"),
                },
            );
        }
        Ok((starting_after, l + 1))
    } else {
        Ok((starting_after, DEFAULT_ITEMS_PER_PAGE + 1))
    }
}

/// Trim a fetched page down to the requested size: when exactly `limit` rows
/// came back, the extra row is dropped and the caller learns that more
/// results exist.
pub fn paginate_results<T>(results: Vec<T>, limit: u32) -> (r: (Vec<T>, bool))
    ensures
        r.1 == (results@.len() % 0x1_0000_0000 == limit),
        r.1 && results@.len() > 0 ==> r.0@ == results@.drop_last(),
        !r.1 || results@.len() == 0 ==> r.0@ == results@,
{
    let mut results = results;
    let has_more = (results.len() as u64) % 0x1_0000_0000u64 == limit as u64;
    if has_more {
        let popped = results.pop();
    }
    (results, has_more)
}

} // verus!
