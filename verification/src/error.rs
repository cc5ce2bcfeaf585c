//! The library-wide error type and its messages.

use vstd::prelude::*;
use crate::text::{append_str, append_decimal, spec_decimal};

verus! {

/// What went wrong.
#[derive(Debug, Clone)]
pub enum MaranodeError {
    ModelNotFound(String),
    ModelChecksumMismatch { expected: String, actual: String },
    InferenceFailed(String),
    AuditIntegrityViolation { seq: u64, detail: String },
    AuditWriteFailed(String),
    IsolationFailed(String),
    AirGapViolation,
    StoreError(String),
    BlobNotFound(String),
    ValidationError(String),
    UnsupportedModel(String),
    ConfigError(String),
    /// An I/O failure, by its message.
    Io(String),
    Database(String),
    /// Any other failure, by its message.
    Other(String),
}

/// The message of an error.
pub open spec fn spec_error_message(e: MaranodeError) -> Seq<char> {
    match e {
        MaranodeError::ModelNotFound(s) => "Model not found: "@ + s@,
        MaranodeError::ModelChecksumMismatch { expected, actual } =>
            "Model checksum mismatch: expected "@ + expected@ + ", got "@ + actual@,
        MaranodeError::InferenceFailed(s) => "Inference failed: "@ + s@,
        MaranodeError::AuditIntegrityViolation { seq, detail } =>
            "Audit log integrity violation at sequence "@ + spec_decimal(seq as nat) + ": "@ + detail@,
        MaranodeError::AuditWriteFailed(s) => "Audit log write failed: "@ + s@,
        MaranodeError::IsolationFailed(s) => "Network isolation enforcement failed: "@ + s@,
        MaranodeError::AirGapViolation => "Air-gap mode is active: outbound network access is not allowed"@,
        MaranodeError::StoreError(s) => "Model store error: "@ + s@,
        MaranodeError::BlobNotFound(s) => "Blob not found: "@ + s@,
        MaranodeError::ValidationError(s) => "Request validation error: "@ + s@,
        MaranodeError::UnsupportedModel(s) => "Unsupported model: "@ + s@,
        MaranodeError::ConfigError(s) => "Configuration error: "@ + s@,
        MaranodeError::Io(s) => "IO error: "@ + s@,
        MaranodeError::Database(s) => "Database error: "@ + s@,
        MaranodeError::Other(s) => s@,
    }
}

fn prefixed(prefix: &str, s: &str) -> (r: String)
    ensures
        r@ == prefix@ + s@,
{
    let mut r = String::new();
    append_str(&mut r, prefix);
    append_str(&mut r, s);
    r
}

impl MaranodeError {
    /// The error's message.
    pub fn message(&self) -> (r: String)
        ensures
            r@ == spec_error_message(*self),
    {
        match self {
            MaranodeError::ModelNotFound(s) => prefixed("Model not found: ", s.as_str()),
            MaranodeError::ModelChecksumMismatch { expected, actual } => {
                let mut r = prefixed("Model checksum mismatch: expected ", expected.as_str());
                append_str(&mut r, ", got ");
                append_str(&mut r, actual.as_str());
                r
            },
            MaranodeError::InferenceFailed(s) => prefixed("Inference failed: ", s.as_str()),
            MaranodeError::AuditIntegrityViolation { seq, detail } => {
                let mut r = String::new();
                append_str(&mut r, "Audit log integrity violation at sequence ");
                append_decimal(&mut r, *seq);
                append_str(&mut r, ": ");
                append_str(&mut r, detail.as_str());
                r
            },
            MaranodeError::AuditWriteFailed(s) => prefixed("Audit log write failed: ", s.as_str()),
            MaranodeError::IsolationFailed(s) => prefixed("Network isolation enforcement failed: ", s.as_str()),
            MaranodeError::AirGapViolation => "Air-gap mode is active: outbound network access is not allowed".to_owned(),
            MaranodeError::StoreError(s) => prefixed("Model store error: ", s.as_str()),
            MaranodeError::BlobNotFound(s) => prefixed("Blob not found: ", s.as_str()),
            MaranodeError::ValidationError(s) => prefixed("Request validation error: ", s.as_str()),
            MaranodeError::UnsupportedModel(s) => prefixed("Unsupported model: ", s.as_str()),
            MaranodeError::ConfigError(s) => prefixed("Configuration error: ", s.as_str()),
            MaranodeError::Io(s) => prefixed("IO error: ", s.as_str()),
            MaranodeError::Database(s) => prefixed("Database error: ", s.as_str()),
            MaranodeError::Other(s) => s.clone(),
        }
    }
}

} // verus!
