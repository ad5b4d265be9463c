use vstd::prelude::*;

verus! {

/// The ways a request can fail.
///
/// `BadRequest` is a malformed or out-of-range input, `NotFound` a missing or
/// hidden record, and `DatabaseError` / `InternalServerError` a failure of the
/// external store, carrying a message with the operation's context.
#[derive(Debug, Clone)]
pub enum ApiError {
    DatabaseError(String),
    NotFound(String),
    BadRequest(String),
    InternalServerError(String),
}

impl ApiError {
    pub open spec fn is_bad_request(&self) -> bool {
        self is BadRequest
    }

    pub open spec fn is_not_found(&self) -> bool {
        self is NotFound
    }

    pub open spec fn spec_status_code(&self) -> u16 {
        match self {
            ApiError::DatabaseError(_) => 500,
            ApiError::NotFound(_) => 404,
            ApiError::BadRequest(_) => 400,
            ApiError::InternalServerError(_) => 500,
        }
    }

    /// The message that reports this error: its kind, then its details.
    pub open spec fn spec_detail(&self) -> Seq<char> {
        match self {
            ApiError::DatabaseError(m) => "Database error: "@ + m@,
            ApiError::NotFound(m) => "Not found: "@ + m@,
            ApiError::BadRequest(m) => "Bad request: "@ + m@,
            ApiError::InternalServerError(m) => "Internal server error: "@ + m@,
        }
    }

    /// The message that reports this error: its kind, then its details.
    pub fn detail(&self) -> (r: String)
        ensures
            r@ == self.spec_detail(),
    {
        match self {
            ApiError::DatabaseError(m) => "Database error: ".to_owned().concat(m.as_str()),
            ApiError::NotFound(m) => "Not found: ".to_owned().concat(m.as_str()),
            ApiError::BadRequest(m) => "Bad request: ".to_owned().concat(m.as_str()),
            ApiError::InternalServerError(m) => "Internal server error: ".to_owned().concat(m.as_str()),
        }
    }

    /// The HTTP status that reports this error.
    pub fn status_code(&self) -> (r: u16)
        ensures
            r == self.spec_status_code(),
    {
        match self {
            ApiError::DatabaseError(_) => 500,
            ApiError::NotFound(_) => 404,
            ApiError::BadRequest(_) => 400,
            ApiError::InternalServerError(_) => 500,
        }
    }
}

} // verus!
