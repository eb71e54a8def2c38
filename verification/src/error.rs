//! The error type of the library.

use vstd::prelude::*;
use vstd::string::StringExecFns;

verus! {

/// What can go wrong. Every variant carries the text that explains it.
#[derive(Debug)]
pub enum AppError {
    /// A file or socket operation failed.
    Io(String),
    /// The prediction service could not be reached.
    Network(String),
    /// The configuration is unusable, or an operation on it is already running.
    Config(String),
    /// The platform's input source service failed or did not know an id.
    InputSource(String),
    /// The prediction service is not configured or gave an unusable answer.
    Llm(String),
    /// A shared guard was poisoned.
    Lock(String),
    /// A document could not be encoded or decoded.
    Json(String),
    /// Anything else.
    Unknown(String),
}

impl AppError {
    /// The explanation that the error carries.
    pub open spec fn detail(self) -> Seq<char> {
        match self {
            AppError::Io(m) => m@,
            AppError::Network(m) => m@,
            AppError::Config(m) => m@,
            AppError::InputSource(m) => m@,
            AppError::Llm(m) => m@,
            AppError::Lock(m) => m@,
            AppError::Json(m) => m@,
            AppError::Unknown(m) => m@,
        }
    }

    /// The words that introduce each kind of error in its message.
    pub open spec fn heading(self) -> Seq<char> {
        match self {
            AppError::Io(_) => "IO error: "@,
            AppError::Network(_) => "Network error: "@,
            AppError::Config(_) => "Configuration error: "@,
            AppError::InputSource(_) => "Input Source error: "@,
            AppError::Llm(_) => "LLM error: "@,
            AppError::Lock(_) => "Lock error: "@,
            AppError::Json(_) => "JSON error: "@,
            AppError::Unknown(_) => "Unknown error: "@,
        }
    }

    /// The full message: heading, then detail.
    pub open spec fn message_text(self) -> Seq<char> {
        self.heading() + self.detail()
    }

    /// The message shown to a user for this error.
    pub fn message(&self) -> (text: String)
        ensures
            text@ == self.message_text(),
    {
        let mut text = String::new();
        match self {
            AppError::Io(m) => {
                text.append("IO error: ");
                text.append(m.as_str());
            },
            AppError::Network(m) => {
                text.append("Network error: ");
                text.append(m.as_str());
            },
            AppError::Config(m) => {
                text.append("Configuration error: ");
                text.append(m.as_str());
            },
            AppError::InputSource(m) => {
                text.append("Input Source error: ");
                text.append(m.as_str());
            },
            AppError::Llm(m) => {
                text.append("LLM error: ");
                text.append(m.as_str());
            },
            AppError::Lock(m) => {
                text.append("Lock error: ");
                text.append(m.as_str());
            },
            AppError::Json(m) => {
                text.append("JSON error: ");
                text.append(m.as_str());
            },
            AppError::Unknown(m) => {
                text.append("Unknown error: ");
                text.append(m.as_str());
            },
        }
        proof {
            assert(text@ =~= self.heading() + self.detail());
        }
        text
    }
}

} // verus!
