//! The error taxonomy of the control plane. Configuration and conflict
//! errors are returned to the caller, never escalated; the functions here
//! give the HTTP status code and the two message forms each variant carries.

use vstd::prelude::*;
use vstd::string::StringExecFns;

verus! {

#[derive(Debug)]
pub enum AppError {
    Database(String),
    Tunnel(String),
    NotFound(String),
    Unauthorized,
    BadRequest(String),
    Internal(String),
    Io(String),
    Jwt(String),
    PasswordHash,
    Config(String),
}

impl AppError {
    /// The HTTP status code a response built from this error carries.
    pub open spec fn spec_status_code(&self) -> u16 {
        match self {
            AppError::Database(_) => 500,
            AppError::Tunnel(_) => 500,
            AppError::NotFound(_) => 404,
            AppError::Unauthorized => 401,
            AppError::BadRequest(_) => 400,
            AppError::Internal(_) => 500,
            AppError::Io(_) => 500,
            AppError::Jwt(_) => 401,
            AppError::PasswordHash => 500,
            AppError::Config(_) => 500,
        }
    }

    pub fn status_code(&self) -> (r: u16)
        ensures
            r == self.spec_status_code(),
    {
        match self {
            AppError::Database(_) => 500,
            AppError::Tunnel(_) => 500,
            AppError::NotFound(_) => 404,
            AppError::Unauthorized => 401,
            AppError::BadRequest(_) => 400,
            AppError::Internal(_) => 500,
            AppError::Io(_) => 500,
            AppError::Jwt(_) => 401,
            AppError::PasswordHash => 500,
            AppError::Config(_) => 500,
        }
    }

    /// The message a response body shows for this error. Detail that could
    /// leak internals (database, IO, token faults) is replaced by a fixed
    /// phrase; not-found, bad-request and internal messages pass through.
    pub open spec fn spec_public_message(&self) -> Seq<char> {
        match self {
            AppError::Database(_) => "Database error"@,
            AppError::Tunnel(_) => "Tunnel operation failed"@,
            AppError::NotFound(m) => m@,
            AppError::Unauthorized => "Unauthorized"@,
            AppError::BadRequest(m) => m@,
            AppError::Internal(m) => m@,
            AppError::Io(_) => "IO error"@,
            AppError::Jwt(_) => "Invalid token"@,
            AppError::PasswordHash => "Password hash error"@,
            AppError::Config(_) => "Configuration error"@,
        }
    }

    pub fn public_message(&self) -> (r: String)
        ensures
            r@ == self.spec_public_message(),
    {
        match self {
            AppError::Database(_) => "Database error".to_owned(),
            AppError::Tunnel(_) => "Tunnel operation failed".to_owned(),
            AppError::NotFound(m) => m.clone(),
            AppError::Unauthorized => "Unauthorized".to_owned(),
            AppError::BadRequest(m) => m.clone(),
            AppError::Internal(m) => m.clone(),
            AppError::Io(_) => "IO error".to_owned(),
            AppError::Jwt(_) => "Invalid token".to_owned(),
            AppError::PasswordHash => "Password hash error".to_owned(),
            AppError::Config(_) => "Configuration error".to_owned(),
        }
    }

    /// The full display text of this error: the variant's phrase, then the
    /// carried detail.
    pub open spec fn spec_display(&self) -> Seq<char> {
        match self {
            AppError::Database(m) => "Database error: "@ + m@,
            AppError::Tunnel(m) => "Tunnel error: "@ + m@,
            AppError::NotFound(m) => "Not found: "@ + m@,
            AppError::Unauthorized => "Unauthorized"@,
            AppError::BadRequest(m) => "Bad request: "@ + m@,
            AppError::Internal(m) => "Internal server error: "@ + m@,
            AppError::Io(m) => "IO error: "@ + m@,
            AppError::Jwt(m) => "JWT error: "@ + m@,
            AppError::PasswordHash => "Password hash error"@,
            AppError::Config(m) => "Configuration error: "@ + m@,
        }
    }

    pub fn display_string(&self) -> (r: String)
        ensures
            r@ == self.spec_display(),
    {
        let (prefix, detail): (&str, Option<&String>) = match self {
            AppError::Database(m) => ("Database error: ", Some(m)),
            AppError::Tunnel(m) => ("Tunnel error: ", Some(m)),
            AppError::NotFound(m) => ("Not found: ", Some(m)),
            AppError::Unauthorized => ("Unauthorized", None),
            AppError::BadRequest(m) => ("Bad request: ", Some(m)),
            AppError::Internal(m) => ("Internal server error: ", Some(m)),
            AppError::Io(m) => ("IO error: ", Some(m)),
            AppError::Jwt(m) => ("JWT error: ", Some(m)),
            AppError::PasswordHash => ("Password hash error", None),
            AppError::Config(m) => ("Configuration error: ", Some(m)),
        };
        let mut out = prefix.to_owned();
        match detail {
            Some(m) => {
                out.append(m.as_str());
            },
            None => {
                proof {
                    assert(out@ + Seq::<char>::empty() =~= out@);
                }
            },
        }
        out
    }
}

pub type AppResult<T> = Result<T, AppError>;

} // verus!
