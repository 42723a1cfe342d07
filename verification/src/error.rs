//! The errors that the protocol's own operations report.

use vstd::prelude::*;
use vstd::string::*;

verus! {

/// What can go wrong while a document or a reference is read.
///
/// Each variant carries the text that describes the failure; for the last
/// three it is the text of the failure that a reader or decoder reported.
#[derive(Debug, Clone)]
pub enum ProtocolError {
    InvalidUri(String),
    InvalidSpecification(String),
    ValidationError(String),
    ParseError(String),
    Io(String),
    Yaml(String),
    Json(String),
}

/// The text that a protocol error is shown as: a heading for its kind, then
/// the text it carries.
pub open spec fn protocol_error_text(e: ProtocolError) -> Seq<char> {
    match e {
        ProtocolError::InvalidUri(m) => "Invalid URI format: "@ + m@,
        ProtocolError::InvalidSpecification(m) => "Invalid specification: "@ + m@,
        ProtocolError::ValidationError(m) => "Validation failed: "@ + m@,
        ProtocolError::ParseError(m) => "Parse error: "@ + m@,
        ProtocolError::Io(m) => "IO error: "@ + m@,
        ProtocolError::Yaml(m) => "YAML error: "@ + m@,
        ProtocolError::Json(m) => "JSON error: "@ + m@,
    }
}

impl ProtocolError {
    /// The text that this error is shown as.
    pub fn message(&self) -> (out: String)
        ensures
            out@ == protocol_error_text(*self),
    {
        let (heading, detail) = match self {
            ProtocolError::InvalidUri(m) => ("Invalid URI format: ", m),
            ProtocolError::InvalidSpecification(m) => ("Invalid specification: ", m),
            ProtocolError::ValidationError(m) => ("Validation failed: ", m),
            ProtocolError::ParseError(m) => ("Parse error: ", m),
            ProtocolError::Io(m) => ("IO error: ", m),
            ProtocolError::Yaml(m) => ("YAML error: ", m),
            ProtocolError::Json(m) => ("JSON error: ", m),
        };
        let mut out = String::from_str(heading);
        out.append(detail.as_str());
        out
    }
}

/// What can go wrong while a command runs.
#[derive(Debug, Clone)]
pub enum CanonError {
    ValidationError { message: String },
    TransformationError { transformation: String, reason: String },
    RegistryError { url: String, status: String },
    Io(String),
    Serialization(String),
    Http(String),
    Config { message: String },
    Command { message: String },
    Network { message: String },
    Protocol(ProtocolError),
}

/// The text that a command's error is shown as.
pub open spec fn canon_error_text(e: CanonError) -> Seq<char> {
    match e {
        CanonError::ValidationError { message } => "Specification validation failed: "@ + message@,
        CanonError::TransformationError { transformation, reason } => "Transformation failed: "@
            + transformation@ + " - "@ + reason@,
        CanonError::RegistryError { url, status } => "Registry error: "@ + url@ + " - "@ + status@,
        CanonError::Io(m) => "IO error: "@ + m@,
        CanonError::Serialization(m) => "Serialization error: "@ + m@,
        CanonError::Http(m) => "HTTP error: "@ + m@,
        CanonError::Config { message } => "Configuration error: "@ + message@,
        CanonError::Command { message } => "Command failed: "@ + message@,
        CanonError::Network { message } => "Network error: "@ + message@,
        CanonError::Protocol(e) => "Protocol error: "@ + protocol_error_text(e),
    }
}

impl CanonError {
    /// The text that this error is shown as.
    pub fn message(&self) -> (out: String)
        ensures
            out@ == canon_error_text(*self),
    {
        match self {
            CanonError::ValidationError { message } => headed(
                "Specification validation failed: ",
                message.as_str(),
            ),
            CanonError::TransformationError { transformation, reason } => {
                let mut out = headed("Transformation failed: ", transformation.as_str());
                out.append(" - ");
                out.append(reason.as_str());
                out
            },
            CanonError::RegistryError { url, status } => {
                let mut out = headed("Registry error: ", url.as_str());
                out.append(" - ");
                out.append(status.as_str());
                out
            },
            CanonError::Io(m) => headed("IO error: ", m.as_str()),
            CanonError::Serialization(m) => headed("Serialization error: ", m.as_str()),
            CanonError::Http(m) => headed("HTTP error: ", m.as_str()),
            CanonError::Config { message } => headed("Configuration error: ", message.as_str()),
            CanonError::Command { message } => headed("Command failed: ", message.as_str()),
            CanonError::Network { message } => headed("Network error: ", message.as_str()),
            CanonError::Protocol(e) => headed("Protocol error: ", e.message().as_str()),
        }
    }
}

/// A heading and, after it, what it is about.
fn headed(heading: &str, detail: &str) -> (out: String)
    ensures
        out@ == heading@ + detail@,
{
    let mut out = String::from_str(heading);
    out.append(detail);
    out
}

} // verus!
