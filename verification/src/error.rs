//! The error value every fallible operation of the library returns: a stable
//! machine code plus a human-readable message.
use vstd::prelude::*;

use crate::text::{chars_of, push_str, string_from_chars};

verus! {

#[derive(Debug, Clone)]
pub struct CommandError {
    pub code: String,
    pub message: String,
}

impl CommandError {
    pub fn new(code: &str, message: &str) -> (e: Self)
        ensures
            e.code@ == code@,
            e.message@ == message@,
    {
        CommandError { code: code.to_string(), message: message.to_string() }
    }

    /// An error built from already-assembled text.
    pub fn from_parts(code: &str, message: String) -> (e: Self)
        ensures
            e.code@ == code@,
            e.message@ == message@,
    {
        CommandError { code: code.to_string(), message }
    }

    /// A database failure: code `app_database_error`, message
    /// "App database error. <detail>".
    pub fn database(detail: &str) -> (e: Self)
        ensures
            e.code@ == "app_database_error"@,
            e.message@ == "App database error. "@ + detail@,
    {
        let mut m = chars_of("App database error. ");
        push_str(&mut m, detail);
        CommandError::from_parts("app_database_error", string_from_chars(&m))
    }

    /// Settings that failed validation: code `invalid_settings`, the detail as
    /// the message.
    pub fn invalid_settings(detail: &str) -> (e: Self)
        ensures
            e.code@ == "invalid_settings"@,
            e.message@ == detail@,
    {
        CommandError::new("invalid_settings", detail)
    }

    /// A copy carrying the same code and message.
    pub fn clone_error(&self) -> (e: Self)
        ensures
            e == *self,
    {
        CommandError { code: self.code.clone(), message: self.message.clone() }
    }

    /// "<code>: <message>", the text the error displays as.
    pub fn to_display_string(&self) -> (s: String)
        ensures
            s@ == self.code@ + ": "@ + self.message@,
    {
        let mut m = chars_of(self.code.as_str());
        push_str(&mut m, ": ");
        push_str(&mut m, self.message.as_str());
        string_from_chars(&m)
    }
}

} // verus!
