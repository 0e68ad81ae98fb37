//! The app's error kinds.

use vstd::prelude::*;
use crate::text::{append_str, chars_of, string_from_chars};

verus! {

broadcast use vstd::string::group_string_axioms;

/// An error, by the part of the app it comes from.
#[derive(Debug, Clone)]
pub enum DictationError {
    Llm(String),
    Asr(String),
    Audio(String),
    Injection(String),
    Database(String),
    Keystore(String),
    Permission(String),
    Session(String),
}

/// The message of an error: the part's prefix, a colon, a space, the detail.
pub open spec fn error_message(e: DictationError) -> Seq<char> {
    match e {
        DictationError::Llm(s) => "LLM: "@ + s@,
        DictationError::Asr(s) => "ASR: "@ + s@,
        DictationError::Audio(s) => "Audio: "@ + s@,
        DictationError::Injection(s) => "Injection: "@ + s@,
        DictationError::Database(s) => "Database: "@ + s@,
        DictationError::Keystore(s) => "Keystore: "@ + s@,
        DictationError::Permission(s) => "Permission: "@ + s@,
        DictationError::Session(s) => "Session: "@ + s@,
    }
}

impl DictationError {
    /// The message shown for this error (see [`error_message`]).
    pub fn message(&self) -> (r: String)
        ensures
            r@ == error_message(*self),
    {
        let (prefix, detail) = match self {
            DictationError::Llm(s) => ("LLM: ", s),
            DictationError::Asr(s) => ("ASR: ", s),
            DictationError::Audio(s) => ("Audio: ", s),
            DictationError::Injection(s) => ("Injection: ", s),
            DictationError::Database(s) => ("Database: ", s),
            DictationError::Keystore(s) => ("Keystore: ", s),
            DictationError::Permission(s) => ("Permission: ", s),
            DictationError::Session(s) => ("Session: ", s),
        };
        let mut c = chars_of(prefix);
        append_str(&mut c, detail.as_str());
        string_from_chars(&c)
    }
}

} // verus!
