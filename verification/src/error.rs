//! The library's error type. Messages are written to be shown to the user.
use crate::text::push_str;
use vstd::prelude::*;

verus! {

/// What went wrong. Each variant carries the text shown after its lead-in
/// sentence (see [`Error::message`]).
#[derive(Debug, Clone, PartialEq, Eq)]
pub enum Error {
    ConfigParse(String),
    InvalidName(String),
    NotFound(String),
    AlreadyExists(String),
    PermissionDenied(String),
    Credentials(String),
    Systemd(String),
}

/// The user-facing text of an error, given the view of its payload.
pub open spec fn error_message(e: Error) -> Seq<char> {
    match e {
        Error::ConfigParse(s) => "The rclone configuration couldn't be read. "@ + s@,
        Error::InvalidName(s) => "\""@ + s@
            + "\" can't be used as a name here. Use lowercase letters, numbers, and dashes \u{2014} for example \"work-share\"."@,
        Error::NotFound(s) => s@,
        Error::AlreadyExists(s) => s@ + " already exists."@,
        Error::PermissionDenied(s) => "You don't have permission to do that. "@ + s@,
        Error::Credentials(s) => "Couldn't store the password securely. "@ + s@,
        Error::Systemd(s) => s@,
    }
}

impl Error {
    /// The text shown to the user for this error.
    pub fn message(&self) -> (r: String)
        ensures
            r@ == error_message(*self),
    {
        let mut out = String::new();
        match self {
            Error::ConfigParse(s) => {
                push_str(&mut out, "The rclone configuration couldn't be read. ");
                push_str(&mut out, s.as_str());
            },
            Error::InvalidName(s) => {
                push_str(&mut out, "\"");
                push_str(&mut out, s.as_str());
                push_str(
                    &mut out,
                    "\" can't be used as a name here. Use lowercase letters, numbers, and dashes \u{2014} for example \"work-share\".",
                );
            },
            Error::NotFound(s) => {
                push_str(&mut out, s.as_str());
            },
            Error::AlreadyExists(s) => {
                push_str(&mut out, s.as_str());
                push_str(&mut out, " already exists.");
            },
            Error::PermissionDenied(s) => {
                push_str(&mut out, "You don't have permission to do that. ");
                push_str(&mut out, s.as_str());
            },
            Error::Credentials(s) => {
                push_str(&mut out, "Couldn't store the password securely. ");
                push_str(&mut out, s.as_str());
            },
            Error::Systemd(s) => {
                push_str(&mut out, s.as_str());
            },
        }
        out
    }
}

} // verus!
