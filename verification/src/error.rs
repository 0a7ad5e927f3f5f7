//! The one error type of the crate. A failure becomes a line of the run log, never the end
//! of the loop, so every error can be written as text.

use vstd::prelude::*;

verus! {

/// What went wrong, by the part of the harness it went wrong in.
#[derive(Debug, PartialEq, Eq)]
pub enum DackError {
    Io(String),
    Json(String),
    Yaml(String),
    /// Malformed configuration.
    Config(String),
    /// A sensor broke its contract or exited with a failure.
    Sensor(String),
    /// The runtime bridge.
    Runtime(String),
    /// The soul repository.
    Repo(String),
    /// Signing and verification.
    Identity(String),
    /// A duty or prompt definition that cannot be read.
    Stimulus(String),
    /// The durable queue.
    Queue(String),
    /// A tool call that the wall refused, where a caller took the refusal as fatal.
    Denied(String),
    /// A configuration that parses but has no adapter behind it.
    NotImplemented(String),
}

pub type Result<T> = std::result::Result<T, DackError>;

/// The message that an error carries.
pub open spec fn error_detail(e: DackError) -> Seq<char> {
    match e {
        DackError::Io(s) => s@,
        DackError::Json(s) => s@,
        DackError::Yaml(s) => s@,
        DackError::Config(s) => s@,
        DackError::Sensor(s) => s@,
        DackError::Runtime(s) => s@,
        DackError::Repo(s) => s@,
        DackError::Identity(s) => s@,
        DackError::Stimulus(s) => s@,
        DackError::Queue(s) => s@,
        DackError::Denied(s) => s@,
        DackError::NotImplemented(s) => s@,
    }
}

/// What an error's text begins with.
pub open spec fn error_prefix(e: DackError) -> Seq<char> {
    match e {
        DackError::Io(_) => "io: "@,
        DackError::Json(_) => "json: "@,
        DackError::Yaml(_) => "yaml: "@,
        DackError::Config(_) => "config: "@,
        DackError::Sensor(_) => "sensor: "@,
        DackError::Runtime(_) => "runtime: "@,
        DackError::Repo(_) => "repo: "@,
        DackError::Identity(_) => "identity: "@,
        DackError::Stimulus(_) => "stimulus: "@,
        DackError::Queue(_) => "queue: "@,
        DackError::Denied(_) => "denied by responder: "@,
        DackError::NotImplemented(_) => "not implemented (scaffold): "@,
    }
}

/// The text of an error.
pub open spec fn error_text(e: DackError) -> Seq<char> {
    error_prefix(e) + error_detail(e)
}

impl DackError {
    /// The error as one line of text.
    pub fn text(&self) -> (r: String)
        ensures
            r@ == error_text(*self),
    {
        let (prefix, detail) = match self {
            DackError::Io(s) => ("io: ", s),
            DackError::Json(s) => ("json: ", s),
            DackError::Yaml(s) => ("yaml: ", s),
            DackError::Config(s) => ("config: ", s),
            DackError::Sensor(s) => ("sensor: ", s),
            DackError::Runtime(s) => ("runtime: ", s),
            DackError::Repo(s) => ("repo: ", s),
            DackError::Identity(s) => ("identity: ", s),
            DackError::Stimulus(s) => ("stimulus: ", s),
            DackError::Queue(s) => ("queue: ", s),
            DackError::Denied(s) => ("denied by responder: ", s),
            DackError::NotImplemented(s) => ("not implemented (scaffold): ", s),
        };
        let mut out = crate::text::owned(prefix);
        out.append(detail.as_str());
        out
    }
}

/// An error says of which kind it is, and then what happened.
pub proof fn an_error_says_its_kind(e: DackError)
    ensures
        e matches DackError::Io(s) ==> error_text(e) == "io: "@ + s@,
        e matches DackError::Json(s) ==> error_text(e) == "json: "@ + s@,
        e matches DackError::Yaml(s) ==> error_text(e) == "yaml: "@ + s@,
        e matches DackError::Config(s) ==> error_text(e) == "config: "@ + s@,
        e matches DackError::Sensor(s) ==> error_text(e) == "sensor: "@ + s@,
        e matches DackError::Runtime(s) ==> error_text(e) == "runtime: "@ + s@,
        e matches DackError::Repo(s) ==> error_text(e) == "repo: "@ + s@,
        e matches DackError::Identity(s) ==> error_text(e) == "identity: "@ + s@,
        e matches DackError::Stimulus(s) ==> error_text(e) == "stimulus: "@ + s@,
        e matches DackError::Queue(s) ==> error_text(e) == "queue: "@ + s@,
        e matches DackError::Denied(s) ==> error_text(e) == "denied by responder: "@ + s@,
{
}

} // verus!
