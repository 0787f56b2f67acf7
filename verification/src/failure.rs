//! The conditions that end a run.

use vstd::prelude::*;
use vstd::string::StringExecFns;
use crate::text::{push_signed_decimal, signed_decimal};

verus! {

/// Why a run ended without a report. Each of them is final: no part of a
/// mapping is ever handed on after one.
#[derive(Debug, PartialEq, Eq)]
pub enum Failure {
    /// The environment does not say where the Java installation is.
    EnvironmentMissing,
    /// A file of the Java installation is not where it was looked for; the
    /// field is the path tried.
    ArtifactMissing(String),
    /// The Java launcher's report of its version holds no version.
    VersionProbeFailed,
    /// The embedded runtime could not be started or asked; the field says
    /// what went wrong.
    RuntimeAttachFailed(String),
    /// The helper wrote a thread line that is not a thread line; the field is
    /// the line as it came.
    ProtocolViolation(String),
    /// The helper did not end with status 0; the field is its status, and
    /// `None` where it left none or its output could not be read.
    HelperProcessFailed(Option<i32>),
    /// The process id on the command line is no process id; the field is what
    /// stood there.
    InvalidInput(String),
}

impl Failure {
    /// The message that tells the operator of this failure.
    pub open spec fn message_text(self) -> Seq<char> {
        match self {
            Failure::EnvironmentMissing => "JAVA_HOME is not set"@,
            Failure::ArtifactMissing(path) => "required file could not be found: "@ + path@,
            Failure::VersionProbeFailed => "could not find the version in the output of java"@,
            Failure::RuntimeAttachFailed(reason) => "failed to attach to the runtime: "@ + reason@,
            Failure::ProtocolViolation(line) => "corrupted line from jthreadinfo: "@ + line@,
            Failure::HelperProcessFailed(Some(code)) => "jthreadinfo exit with failure: status "@
                + signed_decimal(code as int),
            Failure::HelperProcessFailed(None) => "jthreadinfo exit with failure"@,
            Failure::InvalidInput(text) => "Invalid PID: "@ + text@,
        }
    }

    /// The message that tells the operator of this failure, with what it was
    /// about: the path tried, the line as it came, the helper's status.
    pub fn message(&self) -> (r: String)
        ensures
            r@ == self.message_text(),
    {
        match self {
            Failure::EnvironmentMissing => String::from_str("JAVA_HOME is not set"),
            Failure::ArtifactMissing(path) => String::from_str(
                "required file could not be found: ",
            ).concat(path.as_str()),
            Failure::VersionProbeFailed => String::from_str(
                "could not find the version in the output of java",
            ),
            Failure::RuntimeAttachFailed(reason) => String::from_str(
                "failed to attach to the runtime: ",
            ).concat(reason.as_str()),
            Failure::ProtocolViolation(line) => String::from_str(
                "corrupted line from jthreadinfo: ",
            ).concat(line.as_str()),
            Failure::HelperProcessFailed(Some(code)) => {
                let mut out = String::from_str("jthreadinfo exit with failure: status ");
                push_signed_decimal(&mut out, *code as i64);
                out
            },
            Failure::HelperProcessFailed(None) => String::from_str("jthreadinfo exit with failure"),
            Failure::InvalidInput(text) => String::from_str("Invalid PID: ").concat(text.as_str()),
        }
    }

    /// The status with which the program ends after this failure: 1 for every
    /// one of them.
    pub fn exit_code(&self) -> (r: i32)
        ensures
            r == 1,
    {
        1
    }
}

} // verus!
