//! Error types: the general error of the crate and the typed failure kinds
//! of the scheduler and protocol layers.

use vstd::prelude::*;
use vstd::string::StringExecFns;

verus! {

/// The general error of the crate, one variant per subsystem.
#[derive(Debug)]
pub enum JxError {
    Device(String),
    Mining(String),
    Pool(String),
    Config(String),
    Io(String),
    Other(String),
}

impl JxError {
    /// The prefix this error's rendering starts with.
    pub open spec fn spec_prefix(self) -> Seq<char> {
        match self {
            JxError::Device(_) => "Device error: "@,
            JxError::Mining(_) => "Mining error: "@,
            JxError::Pool(_) => "Pool error: "@,
            JxError::Config(_) => "Configuration error: "@,
            JxError::Io(_) => "IO error: "@,
            JxError::Other(_) => "Other error: "@,
        }
    }

    /// The reason carried by the error.
    pub open spec fn spec_reason(self) -> Seq<char> {
        match self {
            JxError::Device(r) => r@,
            JxError::Mining(r) => r@,
            JxError::Pool(r) => r@,
            JxError::Config(r) => r@,
            JxError::Io(r) => r@,
            JxError::Other(r) => r@,
        }
    }

    /// A human-readable rendering: the subsystem prefix followed by the
    /// reason.
    pub fn message(&self) -> (r: String)
        ensures
            r@ == self.spec_prefix() + self.spec_reason(),
    {
        let prefix = match self {
            JxError::Device(_) => "Device error: ",
            JxError::Mining(_) => "Mining error: ",
            JxError::Pool(_) => "Pool error: ",
            JxError::Config(_) => "Configuration error: ",
            JxError::Io(_) => "IO error: ",
            JxError::Other(_) => "Other error: ",
        };
        let reason = match self {
            JxError::Device(r) => r,
            JxError::Mining(r) => r,
            JxError::Pool(r) => r,
            JxError::Config(r) => r,
            JxError::Io(r) => r,
            JxError::Other(r) => r,
        };
        let mut out = String::from_str(prefix);
        out.append(reason.as_str());
        out
    }
}

/// The typed failure kinds of the scheduler and protocol layers.
///
/// `CancelledSearch` is an expected termination of a search, never treated
/// as a failure needing retry; `ProtocolError` marks a malformed message,
/// which intake drops silently.
#[derive(Debug)]
pub enum MinerError {
    ConnectionError(String),
    ProtocolError(String),
    DeviceNotFound,
    AlgorithmUnsupported,
    CancelledSearch,
}

impl MinerError {
    pub fn is_device_not_found(&self) -> (r: bool)
        ensures
            r == (*self is DeviceNotFound),
    {
        match self {
            MinerError::DeviceNotFound => true,
            _ => false,
        }
    }
}

} // verus!
