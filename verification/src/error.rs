//! The service's error type, and the HTTP status and message that each
//! error is answered with.

use vstd::prelude::*;

verus! {

/// The error type of the database layer; the library only carries it.
#[verifier::external_type_specification]
#[verifier::external_body]
pub struct ExSqlxError(sqlx::Error);

/// Why a request failed.
#[derive(Debug)]
pub enum AppError {
    /// The request's input was refused; the string says why.
    BadRequest(String),
    /// No to-do has the requested id.
    NotFound,
    /// The database failed.
    Database(sqlx::Error),
}

/// What an `AppError` is, without the database's own error value.
pub enum ErrorView {
    BadRequest(Seq<char>),
    NotFound,
    Database,
}

impl View for AppError {
    type V = ErrorView;

    open spec fn view(&self) -> ErrorView {
        match self {
            AppError::BadRequest(message) => ErrorView::BadRequest(message@),
            AppError::NotFound => ErrorView::NotFound,
            AppError::Database(_) => ErrorView::Database,
        }
    }
}

/// The HTTP status code an error is answered with.
pub open spec fn error_status(e: ErrorView) -> u16 {
    match e {
        ErrorView::BadRequest(_) => 400,
        ErrorView::NotFound => 404,
        ErrorView::Database => 500,
    }
}

/// The message an error is answered with, under the key `error`.
pub open spec fn error_message(e: ErrorView) -> Seq<char> {
    match e {
        ErrorView::BadRequest(message) => message,
        ErrorView::NotFound => "todo not found"@,
        ErrorView::Database => "internal server error"@,
    }
}

impl AppError {
    /// The HTTP status code and the message that this error is answered with.
    /// A database error is reported only as "internal server error".
    pub fn status_and_message(&self) -> (r: (u16, String))
        ensures
            r.0 == error_status(self@),
            r.1@ == error_message(self@),
            self matches AppError::BadRequest(m) ==> r.0 == 400 && r.1@ == m@,
            self is NotFound ==> r.0 == 404 && r.1@ == "todo not found"@,
            self is Database ==> r.0 == 500 && r.1@ == "internal server error"@,
    {
        match self {
            AppError::BadRequest(message) => (400, message.clone()),
            AppError::NotFound => {
                let m = "todo not found";
                proof {
                    reveal_strlit("todo not found");
                }
                (404, m.to_owned())
            },
            AppError::Database(_) => {
                let m = "internal server error";
                proof {
                    reveal_strlit("internal server error");
                }
                (500, m.to_owned())
            },
        }
    }
}

impl From<sqlx::Error> for AppError {
    fn from(value: sqlx::Error) -> (r: Self) {
        AppError::Database(value)
    }
}

impl vstd::std_specs::convert::FromSpecImpl<sqlx::Error> for AppError {
    open spec fn obeys_from_spec() -> bool {
        true
    }

    open spec fn from_spec(v: sqlx::Error) -> AppError {
        AppError::Database(v)
    }
}

/// Every error is answered with the status and message the API promises: a
/// refused request with 400 and its own message, a missing to-do with 404
/// and "todo not found", and a database failure with 500 and "internal
/// server error", which says nothing of the failure itself.
pub proof fn law_error_answers(message: Seq<char>)
    ensures
        error_status(ErrorView::BadRequest(message)) == 400,
        error_message(ErrorView::BadRequest(message)) == message,
        error_status(ErrorView::NotFound) == 404,
        error_message(ErrorView::NotFound) == "todo not found"@,
        error_status(ErrorView::Database) == 500,
        error_message(ErrorView::Database) == "internal server error"@,
{
}

} // verus!
