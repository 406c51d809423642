//! Errors of the native storage backend that the log and checkpoint code raise or convert.
use vstd::prelude::*;
use crate::text::{hex, push_hex, push_signed_decimal, signed_decimal};

verus! {

/// An error of the native storage backend.
#[allow(inconsistent_fields)]
#[derive(Debug, Clone, PartialEq, Eq)]
pub enum NativeBackendError {
    /// An operating-system I/O failure, with its description.
    Io(String),
    /// A header field holds an invalid value.
    InvalidHeader { field: String, reason: String },
    /// A node record could not be decoded.
    CorruptNodeRecord { node_id: i64, reason: String },
    /// An edge record could not be decoded.
    CorruptEdgeRecord { edge_id: i64, reason: String },
    /// A file starts with the wrong magic number.
    InvalidMagic { expected: u64, found: u64 },
    /// A measured value differs from what was expected.
    ValidationFailed { metric: String, expected: String, actual: String },
    /// A parameter passed to the backend is invalid.
    InvalidParameter { context: String },
    /// The backend is in a state that does not allow the operation.
    InvalidState { context: String },
    /// Stored data is inconsistent.
    CorruptionDetected { context: String },
    /// A configuration parameter is invalid.
    InvalidConfiguration { parameter: String, reason: String },
    /// A stored version differs from the supported one.
    VersionMismatch { expected: String, found: String },
}

/// Result type of backend operations.
pub type NativeResult<T> = Result<T, NativeBackendError>;

/// The human-readable description of a backend error.
pub open spec fn native_error_text(e: NativeBackendError) -> Seq<char> {
    match e {
        NativeBackendError::Io(m) => "I/O error: "@ + m@,
        NativeBackendError::InvalidHeader { field, reason } =>
            "Invalid header field "@ + field@ + ": "@ + reason@,
        NativeBackendError::CorruptNodeRecord { node_id, reason } =>
            "Corrupt node record "@ + signed_decimal(node_id as int) + ": "@ + reason@,
        NativeBackendError::CorruptEdgeRecord { edge_id, reason } =>
            "Corrupt edge record "@ + signed_decimal(edge_id as int) + ": "@ + reason@,
        NativeBackendError::InvalidMagic { expected, found } =>
            "Invalid magic: expected "@ + hex(expected as nat) + ", found "@ + hex(found as nat),
        NativeBackendError::ValidationFailed { metric, expected, actual } =>
            "Validation failed for "@ + metric@ + ": expected "@ + expected@ + ", actual "@ + actual@,
        NativeBackendError::InvalidParameter { context } => "Invalid parameter: "@ + context@,
        NativeBackendError::InvalidState { context } => "Invalid state: "@ + context@,
        NativeBackendError::CorruptionDetected { context } => "Corruption detected: "@ + context@,
        NativeBackendError::InvalidConfiguration { parameter, reason } =>
            "Invalid configuration for "@ + parameter@ + ": "@ + reason@,
        NativeBackendError::VersionMismatch { expected, found } =>
            "Version mismatch: expected "@ + expected@ + ", found "@ + found@,
    }
}

impl NativeBackendError {
    /// The human-readable description of this error.
    pub fn to_string(&self) -> (s: String)
        ensures
            s@ == native_error_text(*self),
    {
        let mut s = String::new();
        match self {
            NativeBackendError::Io(m) => {
                s.append("I/O error: ");
                s.append(m.as_str());
            },
            NativeBackendError::InvalidHeader { field, reason } => {
                s.append("Invalid header field ");
                s.append(field.as_str());
                s.append(": ");
                s.append(reason.as_str());
            },
            NativeBackendError::CorruptNodeRecord { node_id, reason } => {
                s.append("Corrupt node record ");
                push_signed_decimal(&mut s, *node_id);
                s.append(": ");
                s.append(reason.as_str());
            },
            NativeBackendError::CorruptEdgeRecord { edge_id, reason } => {
                s.append("Corrupt edge record ");
                push_signed_decimal(&mut s, *edge_id);
                s.append(": ");
                s.append(reason.as_str());
            },
            NativeBackendError::InvalidMagic { expected, found } => {
                s.append("Invalid magic: expected ");
                push_hex(&mut s, *expected);
                s.append(", found ");
                push_hex(&mut s, *found);
            },
            NativeBackendError::ValidationFailed { metric, expected, actual } => {
                s.append("Validation failed for ");
                s.append(metric.as_str());
                s.append(": expected ");
                s.append(expected.as_str());
                s.append(", actual ");
                s.append(actual.as_str());
            },
            NativeBackendError::InvalidParameter { context } => {
                s.append("Invalid parameter: ");
                s.append(context.as_str());
            },
            NativeBackendError::InvalidState { context } => {
                s.append("Invalid state: ");
                s.append(context.as_str());
            },
            NativeBackendError::CorruptionDetected { context } => {
                s.append("Corruption detected: ");
                s.append(context.as_str());
            },
            NativeBackendError::InvalidConfiguration { parameter, reason } => {
                s.append("Invalid configuration for ");
                s.append(parameter.as_str());
                s.append(": ");
                s.append(reason.as_str());
            },
            NativeBackendError::VersionMismatch { expected, found } => {
                s.append("Version mismatch: expected ");
                s.append(expected.as_str());
                s.append(", found ");
                s.append(found.as_str());
            },
        }
        s
    }
}

} // verus!
