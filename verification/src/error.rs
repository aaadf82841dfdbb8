//! The library's error type and the text each error is reported with.
use vstd::prelude::*;
use vstd::string::*;

verus! {

/// Everything that can go wrong while resolving, loading or running a model.
///
/// Errors raised by I/O, JSON parsing, Candle or the tokenizer carry the message
/// of the underlying error.
#[derive(Debug, Clone)]
pub enum WaxError {
    Io(String),
    Json(String),
    Candle(String),
    Tokenizer(String),
    Template(String),
    UnsupportedArchitecture { architecture: String },
    MissingModelFile(String),
    InvalidModelFolder { path: String, reason: String },
    UnsupportedModelFormat { format: String, message: String },
    InvalidRequest(String),
}

/// The human-readable report of an error.
pub open spec fn error_text(e: WaxError) -> Seq<char> {
    match e {
        WaxError::Io(m) => "I/O error: "@ + m@,
        WaxError::Json(m) => "JSON error: "@ + m@,
        WaxError::Candle(m) => "Candle error: "@ + m@,
        WaxError::Tokenizer(m) => "Tokenizer error: "@ + m@,
        WaxError::Template(m) => "chat template error: "@ + m@,
        WaxError::UnsupportedArchitecture { architecture } => "unsupported architecture: "@
            + architecture@
            + ". This engine currently supports only Llama-like causal LM models."@,
        WaxError::MissingModelFile(p) => "missing required model file: "@ + p@,
        WaxError::InvalidModelFolder { path, reason } => "invalid model folder "@ + path@ + ": "@
            + reason@,
        WaxError::UnsupportedModelFormat { format, message } => "unsupported model format: "@
            + format@ + ". "@ + message@,
        WaxError::InvalidRequest(m) => "invalid generation request: "@ + m@,
    }
}

/// `head` followed by `tail`.
fn joined(head: &str, tail: &str) -> (r: String)
    ensures
        r@ == head@ + tail@,
{
    let mut s = String::from_str(head);
    s.append(tail);
    s
}

impl WaxError {
    /// The text this error is reported with.
    pub fn message(&self) -> (r: String)
        ensures
            r@ == error_text(*self),
    {
        match self {
            WaxError::Io(m) => joined("I/O error: ", m.as_str()),
            WaxError::Json(m) => joined("JSON error: ", m.as_str()),
            WaxError::Candle(m) => joined("Candle error: ", m.as_str()),
            WaxError::Tokenizer(m) => joined("Tokenizer error: ", m.as_str()),
            WaxError::Template(m) => joined("chat template error: ", m.as_str()),
            WaxError::UnsupportedArchitecture { architecture } => {
                let s = joined("unsupported architecture: ", architecture.as_str());
                joined(
                    s.as_str(),
                    ". This engine currently supports only Llama-like causal LM models.",
                )
            },
            WaxError::MissingModelFile(p) => joined("missing required model file: ", p.as_str()),
            WaxError::InvalidModelFolder { path, reason } => {
                let s = joined("invalid model folder ", path.as_str());
                let s = joined(s.as_str(), ": ");
                joined(s.as_str(), reason.as_str())
            },
            WaxError::UnsupportedModelFormat { format, message } => {
                let s = joined("unsupported model format: ", format.as_str());
                let s = joined(s.as_str(), ". ");
                joined(s.as_str(), message.as_str())
            },
            WaxError::InvalidRequest(m) => joined("invalid generation request: ", m.as_str()),
        }
    }
}

/// An invalid-request error with the given reason.
pub fn invalid_request(reason: &str) -> (e: WaxError)
    ensures
        e matches WaxError::InvalidRequest(m) && m@ == reason@,
{
    WaxError::InvalidRequest(String::from_str(reason))
}

} // verus!
