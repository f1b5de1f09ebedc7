//! Errors that carry a machine-readable code and a process exit code.
use vstd::prelude::*;

use crate::text::owned;

verus! {

/// An error reported with a stable code (shown in JSON mode) and the exit code
/// the process ends with.
#[derive(Debug)]
pub struct CodedError {
    pub code: String,
    pub message: String,
    pub exit_code: i32,
}

impl CodedError {
    /// The stable error code.
    pub fn code(&self) -> (r: &str)
        ensures
            r@ == self.code@,
    {
        self.code.as_str()
    }

    /// The process exit code.
    pub fn exit_code(&self) -> (r: i32)
        ensures
            r == self.exit_code,
    {
        self.exit_code
    }

    /// The text of the error.
    pub fn message(&self) -> (r: String)
        ensures
            r@ == self.message@,
    {
        self.message.clone()
    }
}

/// An error with the given code, text and exit code.
pub fn coded_error(code: &str, message: String, exit_code: i32) -> (r: CodedError)
    ensures
        r.code@ == code@,
        r.message == message,
        r.exit_code == exit_code,
{
    CodedError { code: owned(code), message, exit_code }
}

/// A failure to resolve the context of a credential, reported as a validation failure.
pub fn map_validation_error(message: String) -> (r: CodedError)
    ensures
        r.code@ == "validation_failed"@,
        r.message == message,
        r.exit_code == 1,
{
    coded_error("validation_failed", message, 1)
}

/// A failure to write the config file.
pub fn map_write_error(message: String) -> (r: CodedError)
    ensures
        r.code@ == "write_failed"@,
        r.message == message,
        r.exit_code == 1,
{
    coded_error("write_failed", message, 1)
}

/// A failure to read the config file.
pub fn map_config_read_error(message: String) -> (r: CodedError)
    ensures
        r.code@ == "config_read_failed"@,
        r.message == message,
        r.exit_code == 1,
{
    coded_error("config_read_failed", message, 1)
}

} // verus!
