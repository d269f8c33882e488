//! What can go wrong in the library's own operations.

use crate::text::{decimal_signed, push_decimal_signed};
use vstd::prelude::*;

verus! {

/// Why a listing could not be read.
#[derive(Clone, Copy, Debug, PartialEq, Eq)]
pub enum ListingError {
    /// The listing does not open with a line that names a package: it has no
    /// line, or its first line is indented.
    NotFound,
}

/// The message that describes a listing without a leading package line.
pub open spec fn listing_message() -> Seq<char> {
    "expected the first line of the output of apt-cache depends to be a package name"@
}

impl ListingError {
    /// The message that describes the error.
    pub fn message(&self) -> (s: &'static str)
        ensures
            s@ == listing_message(),
    {
        "expected the first line of the output of apt-cache depends to be a package name"
    }
}

/// Why running a command failed.
#[derive(Clone, Debug, PartialEq, Eq)]
pub enum CommandError {
    /// The command exited with a status other than zero.
    Status { command: String, code: i32 },
    /// A signal ended the command.
    Signal { command: String, signal: i32 },
    /// The command ended, and neither a status nor a signal is known.
    Unknown { command: String },
    /// The command succeeded, but its output is no UTF-8 text.
    NotUtf8 { command: String },
}

/// The mathematical content of a [`CommandError`].
pub ghost enum CommandErrorModel {
    Status { command: Seq<char>, code: i32 },
    Signal { command: Seq<char>, signal: i32 },
    Unknown { command: Seq<char> },
    NotUtf8 { command: Seq<char> },
}

impl View for CommandError {
    type V = CommandErrorModel;

    open spec fn view(&self) -> CommandErrorModel {
        match *self {
            CommandError::Status { command, code } => CommandErrorModel::Status {
                command: command@,
                code,
            },
            CommandError::Signal { command, signal } => CommandErrorModel::Signal {
                command: command@,
                signal,
            },
            CommandError::Unknown { command } => CommandErrorModel::Unknown { command: command@ },
            CommandError::NotUtf8 { command } => CommandErrorModel::NotUtf8 { command: command@ },
        }
    }
}

/// The message that describes a command's failure: the command, then the
/// reason.
pub open spec fn failure_message(e: CommandErrorModel) -> Seq<char> {
    match e {
        CommandErrorModel::Status { command, code } => command + " exited with status of "@
            + decimal_signed(code as int),
        CommandErrorModel::Signal { command, signal } => command + " terminated with signal "@
            + decimal_signed(signal as int),
        CommandErrorModel::Unknown { command } => command + " status is unknown"@,
        CommandErrorModel::NotUtf8 { command } => command + " output was not UTF-8"@,
    }
}

impl CommandError {
    /// The message that describes the failure.
    pub fn message(&self) -> (s: String)
        ensures
            s@ == failure_message(self@),
    {
        match self {
            CommandError::Status { command, code } => {
                let mut s = command.clone();
                s.append(" exited with status of ");
                push_decimal_signed(&mut s, *code);
                s
            },
            CommandError::Signal { command, signal } => {
                let mut s = command.clone();
                s.append(" terminated with signal ");
                push_decimal_signed(&mut s, *signal);
                s
            },
            CommandError::Unknown { command } => {
                let mut s = command.clone();
                s.append(" status is unknown");
                s
            },
            CommandError::NotUtf8 { command } => {
                let mut s = command.clone();
                s.append(" output was not UTF-8");
                s
            },
        }
    }
}

} // verus!
