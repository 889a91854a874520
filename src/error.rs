//! The ways a command execution can fail.

use vstd::prelude::*;
use vstd::string::*;

verus! {

/// Why an execution failed. Every failure ends the execution; none is retried.
#[derive(Debug)]
pub enum ExecutionError {
    /// The configuration file is missing or cannot be read.
    ConfigNotFound,
    /// The configuration is not JSON, has no `actions` object, or the entry
    /// of the requested action is malformed.
    ConfigParseError,
    /// No action is configured under this tag.
    ActionNotDefined(String),
    /// The shell could not be launched.
    ProcessSpawnError,
    /// The main command exited with a failure status; its standard error.
    NonZeroExit(String),
    /// The post-exec command at this index exited with a failure status; its
    /// standard error.
    PostExecFailure(usize, String),
    /// A command's output is not valid UTF-8 text.
    OutputDecodeError,
}

/// An execution failure as mathematical values.
pub enum ErrorView {
    ConfigNotFound,
    ConfigParseError,
    ActionNotDefined(Seq<char>),
    ProcessSpawnError,
    NonZeroExit(Seq<char>),
    PostExecFailure(nat, Seq<char>),
    OutputDecodeError,
}

impl View for ExecutionError {
    type V = ErrorView;

    open spec fn view(&self) -> ErrorView {
        match self {
            ExecutionError::ConfigNotFound => ErrorView::ConfigNotFound,
            ExecutionError::ConfigParseError => ErrorView::ConfigParseError,
            ExecutionError::ActionNotDefined(t) => ErrorView::ActionNotDefined(t@),
            ExecutionError::ProcessSpawnError => ErrorView::ProcessSpawnError,
            ExecutionError::NonZeroExit(e) => ErrorView::NonZeroExit(e@),
            ExecutionError::PostExecFailure(i, e) => ErrorView::PostExecFailure(*i as nat, e@),
            ExecutionError::OutputDecodeError => ErrorView::OutputDecodeError,
        }
    }
}

/// The message of a failure: the command's standard error where there is
/// one, else a short description.
pub open spec fn error_message(e: ErrorView) -> Seq<char> {
    match e {
        ErrorView::ConfigNotFound => "configuration file not found"@,
        ErrorView::ConfigParseError => "configuration is not valid"@,
        ErrorView::ActionNotDefined(t) => "Command type not found for '"@ + t + "'"@,
        ErrorView::ProcessSpawnError => "failed to launch the shell"@,
        ErrorView::NonZeroExit(text) => text,
        ErrorView::PostExecFailure(_, text) => text,
        ErrorView::OutputDecodeError => "command output is not valid UTF-8"@,
    }
}

impl ExecutionError {
    /// The message of this failure.
    pub fn message(&self) -> (r: String)
        ensures
            r@ == error_message(self@),
    {
        match self {
            ExecutionError::ConfigNotFound => String::from_str("configuration file not found"),
            ExecutionError::ConfigParseError => String::from_str("configuration is not valid"),
            ExecutionError::ActionNotDefined(t) => {
                let mut m = String::from_str("Command type not found for '");
                m.append(t.as_str());
                m.append("'");
                m
            },
            ExecutionError::ProcessSpawnError => String::from_str("failed to launch the shell"),
            ExecutionError::NonZeroExit(text) => text.clone(),
            ExecutionError::PostExecFailure(_, text) => text.clone(),
            ExecutionError::OutputDecodeError => String::from_str("command output is not valid UTF-8"),
        }
    }
}

} // verus!
