//! What a request fails with.
use vstd::prelude::*;
use vstd::string::StringExecFns;

verus! {

/// The HTTP status codes that the service answers with.
#[derive(Debug, Clone, Copy, PartialEq, Eq, Structural)]
pub enum StatusCode {
    Success,
    BadRequest,
    Unauthorized,
    Forbidden,
    NotFound,
    InternalServerError,
}

/// The number of a status code.
pub open spec fn status_number(s: StatusCode) -> u16 {
    match s {
        StatusCode::Success => 200,
        StatusCode::BadRequest => 400,
        StatusCode::Unauthorized => 401,
        StatusCode::Forbidden => 403,
        StatusCode::NotFound => 404,
        StatusCode::InternalServerError => 500,
    }
}

impl StatusCode {
    /// The number that goes into the status line.
    pub fn as_u16(self) -> (r: u16)
        ensures
            r == status_number(self),
    {
        match self {
            StatusCode::Success => 200,
            StatusCode::BadRequest => 400,
            StatusCode::Unauthorized => 401,
            StatusCode::Forbidden => 403,
            StatusCode::NotFound => 404,
            StatusCode::InternalServerError => 500,
        }
    }
}

/// A failed database operation: the server's error number, where a MySQL server reported one, and
/// the failure in words.
#[derive(Debug)]
pub struct DbFailure {
    pub number: Option<u16>,
    pub text: String,
}

/// Why a request fails. Failures of the file lock, the database, the multipart body and the CSV
/// data carry the words of the component that failed.
#[derive(Debug)]
pub enum Error {
    Flock(String),
    Sqlx(String),
    Multipart(String),
    Csv(String),
    Custom(StatusCode, String),
    Internal(String),
}

/// An error in characters.
pub ghost enum Failure {
    Flock(Seq<char>),
    Sqlx(Seq<char>),
    Multipart(Seq<char>),
    Csv(Seq<char>),
    Custom(StatusCode, Seq<char>),
    Internal(Seq<char>),
}

impl View for Error {
    type V = Failure;

    open spec fn view(&self) -> Failure {
        match *self {
            Error::Flock(cause) => Failure::Flock(cause@),
            Error::Sqlx(cause) => Failure::Sqlx(cause@),
            Error::Multipart(cause) => Failure::Multipart(cause@),
            Error::Csv(cause) => Failure::Csv(cause@),
            Error::Custom(code, message) => Failure::Custom(code, message@),
            Error::Internal(message) => Failure::Internal(message@),
        }
    }
}

/// The status code with which a failure is answered.
pub open spec fn failure_status(f: Failure) -> StatusCode {
    match f {
        Failure::Custom(code, _) => code,
        _ => StatusCode::InternalServerError,
    }
}

/// A failure in words.
pub open spec fn failure_text(f: Failure) -> Seq<char> {
    match f {
        Failure::Flock(cause) => "flock error: "@ + cause,
        Failure::Sqlx(cause) => "SQLx error: "@ + cause,
        Failure::Multipart(cause) => "Multipart error: "@ + cause,
        Failure::Csv(cause) => "CSV error: "@ + cause,
        Failure::Custom(_, message) => message,
        Failure::Internal(message) => message,
    }
}

/// The body of every error response: only that the request failed.
#[derive(Debug)]
pub struct ErrorBody {
    pub status: bool,
}

impl Error {
    /// The status code with which this error is answered.
    pub fn status_code(&self) -> (r: StatusCode)
        ensures
            r == failure_status(self@),
    {
        match self {
            Error::Custom(code, _) => *code,
            _ => StatusCode::InternalServerError,
        }
    }

    /// The response to a request that fails with this error. The words of the error stay inside
    /// the service.
    pub fn error_response(&self) -> (r: (StatusCode, ErrorBody))
        ensures
            r.0 == failure_status(self@),
            !r.1.status,
    {
        (self.status_code(), ErrorBody { status: false })
    }

    /// This error in words.
    pub fn text(&self) -> (r: String)
        ensures
            r@ == failure_text(self@),
    {
        match self {
            Error::Flock(cause) => joined("flock error: ", cause.as_str()),
            Error::Sqlx(cause) => joined("SQLx error: ", cause.as_str()),
            Error::Multipart(cause) => joined("Multipart error: ", cause.as_str()),
            Error::Csv(cause) => joined("CSV error: ", cause.as_str()),
            Error::Custom(_, message) => message.clone(),
            Error::Internal(message) => message.clone(),
        }
    }
}

/// One text after another.
pub fn joined(a: &str, b: &str) -> (r: String)
    ensures
        r@ == a@ + b@,
{
    let mut r = a.to_owned();
    r.append(b);
    r
}

/// Three texts, one after another.
pub fn joined3(a: &str, b: &str, c: &str) -> (r: String)
    ensures
        r@ == a@ + b@ + c@,
{
    let mut r = joined(a, b);
    r.append(c);
    r
}

/// A refusal of a request, with the status code of the answer.
pub fn refusal(status: StatusCode, message: &str) -> (r: Error)
    ensures
        r@ == Failure::Custom(status, message@),
{
    Error::Custom(status, message.to_owned())
}

/// A failure inside the service.
pub fn internal(message: &str) -> (r: Error)
    ensures
        r@ == Failure::Internal(message@),
{
    Error::Internal(message.to_owned())
}

impl DbFailure {
    /// The error with which a request fails where a database operation did.
    pub fn into_error(self) -> (r: Error)
        ensures
            r@ == Failure::Sqlx(self.text@),
    {
        Error::Sqlx(self.text)
    }
}

} // verus!
