//! Typed error surface of the library.

use vstd::prelude::*;
use crate::config::{config_error_text, ConfigError};
use crate::db::{db_error_text, DbError};
use crate::models::message_with;
use crate::text::chars_of;

verus! {

/// An error of any operation of the library.
#[derive(Debug)]
pub enum AppError {
    Config(ConfigError),
    Db(DbError),
    UnknownMethod(String),
    InvalidArg(String),
    NotFound(String),
    Io(String),
    Message(String),
}

/// The stable code of an error (`CONFIG`, `DB`, `UNKNOWN_METHOD`, ...).
pub open spec fn app_error_code(e: AppError) -> Seq<char> {
    match e {
        AppError::Config(_) => "CONFIG"@,
        AppError::Db(_) => "DB"@,
        AppError::UnknownMethod(_) => "UNKNOWN_METHOD"@,
        AppError::InvalidArg(_) => "INVALID_ARG"@,
        AppError::NotFound(_) => "NOT_FOUND"@,
        AppError::Io(_) => "IO"@,
        AppError::Message(_) => "ERROR"@,
    }
}

/// The text an error displays.
pub open spec fn app_error_text(e: AppError) -> Seq<char> {
    match e {
        AppError::Config(c) => config_error_text(c),
        AppError::Db(d) => db_error_text(d),
        AppError::UnknownMethod(s) => "unknown method: "@ + s@,
        AppError::InvalidArg(s) => "invalid argument: "@ + s@,
        AppError::NotFound(s) => "not found: "@ + s@,
        AppError::Io(s) => "io: "@ + s@,
        AppError::Message(s) => s@,
    }
}

impl AppError {
    pub fn code(&self) -> (r: &'static str)
        ensures
            r@ == app_error_code(*self),
    {
        match self {
            AppError::Config(_) => "CONFIG",
            AppError::Db(_) => "DB",
            AppError::UnknownMethod(_) => "UNKNOWN_METHOD",
            AppError::InvalidArg(_) => "INVALID_ARG",
            AppError::NotFound(_) => "NOT_FOUND",
            AppError::Io(_) => "IO",
            AppError::Message(_) => "ERROR",
        }
    }

    /// The text this error displays.
    pub fn message(&self) -> (r: String)
        ensures
            r@ == app_error_text(*self),
    {
        match self {
            AppError::Config(c) => c.message(),
            AppError::Db(d) => d.message(),
            AppError::UnknownMethod(s) => message_with("unknown method: ", chars_of(s.as_str()).as_slice()),
            AppError::InvalidArg(s) => message_with("invalid argument: ", chars_of(s.as_str()).as_slice()),
            AppError::NotFound(s) => message_with("not found: ", chars_of(s.as_str()).as_slice()),
            AppError::Io(s) => message_with("io: ", chars_of(s.as_str()).as_slice()),
            AppError::Message(s) => s.clone(),
        }
    }
}

/// Whether an error is the database being busy or locked, which a retry may
/// get past.
pub fn is_busy_err(err: &AppError) -> (r: bool)
    ensures
        r == (err is Db && crate::db::busy(err->Db_0)),
{
    match err {
        AppError::Db(e) => crate::db::is_busy_db(e),
        _ => false,
    }
}

} // verus!
