use vstd::prelude::*;

verus! {

/// The error taxonomy of the service. Storage-level failures are mapped to
/// one of these kinds at the boundary; nothing else leaks to a caller.
#[derive(Clone, Copy, Debug, PartialEq, Eq, Structural)]
pub enum Error {
    /// A requested row does not exist.
    NotFound,
    /// A value that must be unique (a user's email) is already taken.
    NotUnique,
    /// An update was attempted that changes no column at all.
    NullUpdate,
    /// A password check against the stored hash failed.
    IncorrectPassword,
    /// The request carries no identity, or one without the needed rights.
    Unauthorized,
    /// Refusal to change the role of the sole remaining admin.
    LastAdmin,
    /// A malformed request payload or header.
    InvalidPayload,
    /// An unexpected failure; details are never surfaced to the caller.
    Internal,
}

pub type SResult<T> = Result<T, Error>;

/// A structured error as it appears in a response: a human-readable message
/// and a machine-readable kind.
pub struct FieldError {
    pub message: String,
    pub kind: String,
}

/// The machine-readable kind for each error.
pub open spec fn spec_kind_of(e: Error) -> Seq<char> {
    match e {
        Error::NotFound => "NOT_FOUND"@,
        Error::NotUnique => "NOT_UNIQUE"@,
        Error::NullUpdate => "NULL_UPDATE"@,
        Error::IncorrectPassword => "INCORRECT_PASSWORD"@,
        Error::Unauthorized => "UNAUTHORIZED"@,
        Error::LastAdmin => "LAST_ADMIN"@,
        Error::InvalidPayload => "INVALID_DATA"@,
        Error::Internal => "INTERNAL_SERVER_ERROR"@,
    }
}

/// The user-visible message for each error.
pub open spec fn spec_message_of(e: Error) -> Seq<char> {
    match e {
        Error::NotFound => "Could not find the requested resource."@,
        Error::NotUnique => "Provided value is not unique."@,
        Error::NullUpdate => "Tried to update a resource without a value."@,
        Error::IncorrectPassword => "Given password was incorrect."@,
        Error::Unauthorized => "This is an unauthorized request."@,
        Error::LastAdmin => "Cannot change the user type of the last admin"@,
        Error::InvalidPayload => "Provided data is invalid."@,
        Error::Internal => "Something bad happened."@,
    }
}

impl Error {
    /// Turns an error into the structured form carried by a response body.
    pub fn into_field_error(self) -> (r: FieldError)
        ensures
            r.message@ == spec_message_of(self),
            r.kind@ == spec_kind_of(self),
    {
        match self {
            Error::NotFound => FieldError {
                message: "Could not find the requested resource.".to_owned(),
                kind: "NOT_FOUND".to_owned(),
            },
            Error::NotUnique => FieldError {
                message: "Provided value is not unique.".to_owned(),
                kind: "NOT_UNIQUE".to_owned(),
            },
            Error::NullUpdate => FieldError {
                message: "Tried to update a resource without a value.".to_owned(),
                kind: "NULL_UPDATE".to_owned(),
            },
            Error::IncorrectPassword => FieldError {
                message: "Given password was incorrect.".to_owned(),
                kind: "INCORRECT_PASSWORD".to_owned(),
            },
            Error::Unauthorized => FieldError {
                message: "This is an unauthorized request.".to_owned(),
                kind: "UNAUTHORIZED".to_owned(),
            },
            Error::LastAdmin => FieldError {
                message: "Cannot change the user type of the last admin".to_owned(),
                kind: "LAST_ADMIN".to_owned(),
            },
            Error::InvalidPayload => FieldError {
                message: "Provided data is invalid.".to_owned(),
                kind: "INVALID_DATA".to_owned(),
            },
            Error::Internal => FieldError {
                message: "Something bad happened.".to_owned(),
                kind: "INTERNAL_SERVER_ERROR".to_owned(),
            },
        }
    }
}

/// The body of a response carrying a single structured error:
/// a JSON object with a null `data` and one entry under `errors`.
pub open spec fn spec_error_body(message: Seq<char>, kind: Seq<char>) -> Seq<char> {
    "{\"data\":null,\"errors\":[{\"message\":\""@ + message + "\",\"extensions\":{\"kind\":\""@
        + kind + "\"}}]}"@
}

/// Renders the response body for a failed request. The message and kind are
/// taken as they stand; the fixed vocabulary above contains no character that
/// needs escaping.
pub fn error_response_body(e: &FieldError) -> (r: String)
    ensures
        r@ == spec_error_body(e.message@, e.kind@),
{
    let mut body = String::from_str("{\"data\":null,\"errors\":[{\"message\":\"");
    body.append(e.message.as_str());
    body.append("\",\"extensions\":{\"kind\":\"");
    body.append(e.kind.as_str());
    body.append("\"}}]}");
    body
}

} // verus!
