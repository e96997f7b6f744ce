use vstd::prelude::*;
use vstd::string::*;

verus! {

/// The errors a request handler can end with.
#[derive(Debug)]
pub enum AppError {
    BadRequest(String),
    Unauthorized(String),
    NotFound(String),
    Validation(String),
    Internal(String),
    /// A store failure, with the store's own description.
    Database(String),
    Email(String),
    ChannelClosed,
}

/// The outcome of a request handler.
pub type AppResult<T> = Result<T, AppError>;

/// The HTTP status each error is answered with.
pub open spec fn error_status(e: AppError) -> int {
    match e {
        AppError::BadRequest(_) | AppError::Validation(_) => 400,
        AppError::Unauthorized(_) => 401,
        AppError::NotFound(_) => 404,
        _ => 500,
    }
}

/// The message shown to the client: the error's own text for the client
/// errors (bad request, validation, not found, unauthorized), a fixed
/// message for every server-side error.
pub open spec fn error_public_message(e: AppError) -> Seq<char> {
    match e {
        AppError::BadRequest(m) => m@,
        AppError::Validation(m) => m@,
        AppError::Unauthorized(m) => m@,
        AppError::NotFound(m) => m@,
        AppError::Internal(_) => "Internal server error"@,
        AppError::Database(_) => "Database error occurred"@,
        AppError::Email(_) => "Email sending error"@,
        AppError::ChannelClosed => "Internal channel error"@,
    }
}

/// The error's full description, as logged.
pub open spec fn error_text(e: AppError) -> Seq<char> {
    match e {
        AppError::BadRequest(m) => "Bad request: "@ + m@,
        AppError::Unauthorized(m) => "Unauthorized: "@ + m@,
        AppError::NotFound(m) => "Not found: "@ + m@,
        AppError::Validation(m) => "Validation error: "@ + m@,
        AppError::Internal(m) => "Internal server error: "@ + m@,
        AppError::Database(m) => "Database error: "@ + m@,
        AppError::Email(m) => "Email error: "@ + m@,
        AppError::ChannelClosed => "Channel closed"@,
    }
}

impl AppError {
    /// The HTTP status this error is answered with.
    pub fn status_code(&self) -> (r: u16)
        ensures
            r as int == error_status(*self),
    {
        match self {
            AppError::BadRequest(_) | AppError::Validation(_) => 400,
            AppError::Unauthorized(_) => 401,
            AppError::NotFound(_) => 404,
            _ => 500,
        }
    }

    /// Whether this error is a server-side failure (status 500).
    pub fn is_server_error(&self) -> (r: bool)
        ensures
            r == (error_status(*self) >= 500),
    {
        self.status_code() >= 500
    }

    /// The message shown to the client.
    pub fn public_message(&self) -> (r: String)
        ensures
            r@ == error_public_message(*self),
    {
        match self {
            AppError::BadRequest(m) => m.clone(),
            AppError::Validation(m) => m.clone(),
            AppError::Unauthorized(m) => m.clone(),
            AppError::NotFound(m) => m.clone(),
            AppError::Internal(_) => String::from_str("Internal server error"),
            AppError::Database(_) => String::from_str("Database error occurred"),
            AppError::Email(_) => String::from_str("Email sending error"),
            AppError::ChannelClosed => String::from_str("Internal channel error"),
        }
    }

    /// The error's full description.
    pub fn to_string(&self) -> (r: String)
        ensures
            r@ == error_text(*self),
    {
        let (prefix, detail): (&str, Option<&String>) = match self {
            AppError::BadRequest(m) => ("Bad request: ", Some(m)),
            AppError::Unauthorized(m) => ("Unauthorized: ", Some(m)),
            AppError::NotFound(m) => ("Not found: ", Some(m)),
            AppError::Validation(m) => ("Validation error: ", Some(m)),
            AppError::Internal(m) => ("Internal server error: ", Some(m)),
            AppError::Database(m) => ("Database error: ", Some(m)),
            AppError::Email(m) => ("Email error: ", Some(m)),
            AppError::ChannelClosed => ("Channel closed", None),
        };
        let mut s = String::from_str(prefix);
        if let Some(m) = detail {
            s.append(m.as_str());
        }
        s
    }
}

} // verus!
