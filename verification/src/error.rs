use vstd::prelude::*;
use vstd::std_specs::convert::FromSpecImpl;
use vstd::string::StringExecFns;

use crate::text::starts_with;

verus! {

/// `std::io::Error`, carried through unchanged.
#[verifier::external_type_specification]
#[verifier::external_body]
pub struct ExIoError(std::io::Error);

/// `serde_json::Error`, carried through unchanged.
#[verifier::external_type_specification]
#[verifier::external_body]
pub struct ExJsonError(serde_json::Error);

/// Errors of profile loading and switching.
#[derive(Debug)]
pub enum KbdError {
    Io(std::io::Error),
    Json(serde_json::Error),
    NoLeds,
    NoFrames,
    InvalidProfileName(String),
}

/// The result of profile loading and switching.
pub type Result<T> = std::result::Result<T, KbdError>;

/// The text of an I/O error: `std::io::Error`'s `Display`, through `to_string`.
/// The text depends on the operating system's message for the error, so nothing
/// is stated of it.
#[verifier::external_body]
fn io_error_text(e: &std::io::Error) -> String {
    e.to_string()
}

/// The text of a JSON error: `serde_json::Error`'s `Display`, through `to_string`.
/// The error is opaque here, so nothing is stated of the text.
#[verifier::external_body]
fn json_error_text(e: &serde_json::Error) -> String {
    e.to_string()
}

impl KbdError {
    /// The human-readable message of the error (what `Display` shows).
    pub fn message(&self) -> (m: String)
        ensures
            match self {
                KbdError::Io(_) => starts_with(m@, "io: "@),
                KbdError::Json(_) => starts_with(m@, "json: "@),
                KbdError::NoLeds => m@ == "no LED entries in profile"@,
                KbdError::NoFrames => m@ == "no frames generated"@,
                KbdError::InvalidProfileName(n) => m@ == "invalid profile name: '"@ + n@ + "'"@,
            },
    {
        match self {
            KbdError::Io(e) => {
                let mut m = "io: ".to_owned();
                let t = io_error_text(e);
                m.append(t.as_str());
                assert(m@.take(("io: "@).len() as int) =~= "io: "@);
                m
            },
            KbdError::Json(e) => {
                let mut m = "json: ".to_owned();
                let t = json_error_text(e);
                m.append(t.as_str());
                assert(m@.take(("json: "@).len() as int) =~= "json: "@);
                m
            },
            KbdError::NoLeds => "no LED entries in profile".to_owned(),
            KbdError::NoFrames => "no frames generated".to_owned(),
            KbdError::InvalidProfileName(n) => {
                let mut m = "invalid profile name: '".to_owned();
                m.append(n.as_str());
                m.append("'");
                m
            },
        }
    }
}

impl From<std::io::Error> for KbdError {
    fn from(e: std::io::Error) -> (res: KbdError) {
        KbdError::Io(e)
    }
}

impl FromSpecImpl<std::io::Error> for KbdError {
    open spec fn obeys_from_spec() -> bool {
        true
    }

    open spec fn from_spec(e: std::io::Error) -> KbdError {
        KbdError::Io(e)
    }
}

impl From<serde_json::Error> for KbdError {
    fn from(e: serde_json::Error) -> (res: KbdError) {
        KbdError::Json(e)
    }
}

impl FromSpecImpl<serde_json::Error> for KbdError {
    open spec fn obeys_from_spec() -> bool {
        true
    }

    open spec fn from_spec(e: serde_json::Error) -> KbdError {
        KbdError::Json(e)
    }
}

} // verus!
