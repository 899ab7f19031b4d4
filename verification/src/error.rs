//! Error types for node operations.

use vstd::prelude::*;

verus! {

/// Errors from node creation, parameter access, and registry operations.
#[non_exhaustive]
#[derive(Clone, Debug)]
pub enum NodeError {
    /// Unknown node ID.
    UnknownNode(String),
    /// Unknown parameter name.
    UnknownParam { node: &'static str, param: String },
    /// Parameter value type mismatch.
    TypeMismatch { node: &'static str, param: &'static str, expected: &'static str },
    /// Parameter value out of valid range.
    OutOfRange { node: &'static str, param: &'static str, message: String },
    /// Required parameter missing.
    MissingParam { node: &'static str, param: &'static str },
    /// Invalid enum variant string.
    InvalidEnumVariant { node: &'static str, param: &'static str, value: String },
    /// Generic error.
    Other(String),
}

/// The human-readable text of an error.
pub open spec fn error_text(e: NodeError) -> Seq<char> {
    match e {
        NodeError::UnknownNode(id) => "unknown node: "@ + id@,
        NodeError::UnknownParam { node, param } => "unknown parameter '"@ + param@
            + "' on node '"@ + node@ + "'"@,
        NodeError::TypeMismatch { node, param, expected } => "type mismatch for '"@ + param@
            + "' on '"@ + node@ + "': expected "@ + expected@,
        NodeError::OutOfRange { node, param, message } => "out of range for '"@ + param@
            + "' on '"@ + node@ + "': "@ + message@,
        NodeError::MissingParam { node, param } => "missing required parameter '"@ + param@
            + "' on '"@ + node@ + "'"@,
        NodeError::InvalidEnumVariant { node, param, value } => "invalid variant '"@ + value@
            + "' for '"@ + param@ + "' on '"@ + node@ + "'"@,
        NodeError::Other(msg) => msg@,
    }
}

impl NodeError {
    /// The human-readable text of this error (what `Display` shows).
    pub fn message(&self) -> (r: String)
        ensures
            r@ == error_text(*self),
    {
        let mut s = String::new();
        match self {
            NodeError::UnknownNode(id) => {
                s.append("unknown node: ");
                s.append(id.as_str());
            },
            NodeError::UnknownParam { node, param } => {
                s.append("unknown parameter '");
                s.append(param.as_str());
                s.append("' on node '");
                s.append(node);
                s.append("'");
            },
            NodeError::TypeMismatch { node, param, expected } => {
                s.append("type mismatch for '");
                s.append(param);
                s.append("' on '");
                s.append(node);
                s.append("': expected ");
                s.append(expected);
            },
            NodeError::OutOfRange { node, param, message } => {
                s.append("out of range for '");
                s.append(param);
                s.append("' on '");
                s.append(node);
                s.append("': ");
                s.append(message.as_str());
            },
            NodeError::MissingParam { node, param } => {
                s.append("missing required parameter '");
                s.append(param);
                s.append("' on '");
                s.append(node);
                s.append("'");
            },
            NodeError::InvalidEnumVariant { node, param, value } => {
                s.append("invalid variant '");
                s.append(value.as_str());
                s.append("' for '");
                s.append(param);
                s.append("' on '");
                s.append(node);
                s.append("'");
            },
            NodeError::Other(msg) => {
                s.append(msg.as_str());
            },
        }
        proof {
            assert(s@ =~= error_text(*self));
        }
        s
    }
}

} // verus!
