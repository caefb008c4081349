//! Backend failures and their tool-level shape: every failure becomes data
//! (`ToolError`) the caller can read and correct against.
use crate::types::ToolError;
use vstd::prelude::*;
use vstd::string::*;

verus! {

#[derive(Debug)]
pub enum BackendError {
    NotImplemented(&'static str),
    Unavailable { backend: &'static str, detail: String },
    StaleHandle(String),
    Failed(String),
    Unsupported { reason: String },
    ExternalCommandFailed { stderr: String },
    Io { path: String, error: String },
    Timeout { detail: String },
    BusDisconnected { detail: String },
    InputDispatchFailed { detail: String },
    PermissionDenied { reason: String },
}

/// The wire code each kind of failure is reported under.
pub open spec fn tool_code(e: BackendError) -> Seq<char> {
    match e {
        BackendError::NotImplemented(_) => "not_implemented"@,
        BackendError::Unavailable { .. } => "backend_unavailable"@,
        BackendError::StaleHandle(_) => "stale_handle"@,
        BackendError::Failed(_) => "action_failed"@,
        BackendError::Unsupported { .. } => "unsupported"@,
        BackendError::ExternalCommandFailed { .. } => "external_command_failed"@,
        BackendError::Io { .. } => "io_error"@,
        BackendError::Timeout { .. } => "timeout"@,
        BackendError::BusDisconnected { .. } => "bus_disconnected"@,
        BackendError::InputDispatchFailed { .. } => "input_dispatch_failed"@,
        BackendError::PermissionDenied { .. } => "permission_denied"@,
    }
}

/// The message a failure carries to the caller.
pub open spec fn tool_message(e: BackendError) -> Seq<char> {
    match e {
        BackendError::NotImplemented(what) => "not implemented: "@ + what@,
        BackendError::Unavailable { backend, detail } => backend@ + ": "@ + detail@,
        BackendError::StaleHandle(m) => m@,
        BackendError::Failed(m) => m@,
        BackendError::Unsupported { reason } => reason@,
        BackendError::ExternalCommandFailed { stderr } => stderr@,
        BackendError::Io { path, error } => path@ + ": "@ + error@,
        BackendError::Timeout { detail } => detail@,
        BackendError::BusDisconnected { detail } => detail@,
        BackendError::InputDispatchFailed { detail } => detail@,
        BackendError::PermissionDenied { reason } => reason@,
    }
}

fn joined(a: &str, sep: &str, b: &str) -> (s: String)
    ensures
        s@ == a@ + sep@ + b@,
{
    let mut s = String::from_str(a);
    s.append(sep);
    s.append(b);
    s
}

impl BackendError {
    /// The tool-level error for this failure; `retryable` is the caller's call.
    pub fn tool(&self, retryable: bool) -> (r: ToolError)
        ensures
            r.code@ == tool_code(*self),
            r.message@ == tool_message(*self),
            r.retryable == retryable,
    {
        let (code, message) = match self {
            BackendError::NotImplemented(what) => ("not_implemented", joined("not implemented", ": ", what)),
            BackendError::Unavailable { backend, detail } => ("backend_unavailable", joined(backend, ": ", detail.as_str())),
            BackendError::StaleHandle(m) => ("stale_handle", m.clone()),
            BackendError::Failed(m) => ("action_failed", m.clone()),
            BackendError::Unsupported { reason } => ("unsupported", reason.clone()),
            BackendError::ExternalCommandFailed { stderr } => ("external_command_failed", stderr.clone()),
            BackendError::Io { path, error } => ("io_error", joined(path.as_str(), ": ", error.as_str())),
            BackendError::Timeout { detail } => ("timeout", detail.clone()),
            BackendError::BusDisconnected { detail } => ("bus_disconnected", detail.clone()),
            BackendError::InputDispatchFailed { detail } => ("input_dispatch_failed", detail.clone()),
            BackendError::PermissionDenied { reason } => ("permission_denied", reason.clone()),
        };
        proof {
            reveal_strlit("not implemented");
            reveal_strlit(": ");
            reveal_strlit("not implemented: ");
        }
        ToolError { code: String::from_str(code), message, retryable }
    }
}

/// A tool error that the caller must fix before retrying.
pub fn fail(code: &str, message: &str) -> (r: ToolError)
    ensures
        r.code@ == code@,
        r.message@ == message@,
        !r.retryable,
{
    ToolError { code: String::from_str(code), message: String::from_str(message), retryable: false }
}

} // verus!
