//! What a host is asked to do. The library decides and describes; the host
//! performs. A description carries the message with which the host reports a
//! failure, so that every message is decided here.

use vstd::prelude::*;

verus! {

/// A command line for a shell: `program switch command`. A shell that was
/// launched counts as run, whatever became of its command; only a shell
/// that cannot be launched is a failure.
#[derive(Clone, Debug, PartialEq, Eq)]
pub struct Invocation {
    /// The shell to launch.
    pub program: String,
    /// The switch that makes the shell take the next argument as a command.
    pub switch: String,
    /// The command that the shell is to run.
    pub command: String,
    /// The error to report when the shell cannot be launched.
    pub failure: String,
}

/// An `Invocation` as mathematical values.
#[verifier::ext_equal]
pub struct InvocationView {
    pub program: Seq<char>,
    pub switch: Seq<char>,
    pub command: Seq<char>,
    pub failure: Seq<char>,
}

impl View for Invocation {
    type V = InvocationView;

    open spec fn view(&self) -> InvocationView {
        InvocationView {
            program: self.program@,
            switch: self.switch@,
            command: self.command@,
            failure: self.failure@,
        }
    }
}

/// One effect that a host performs on behalf of a script.
#[derive(Clone, Debug, PartialEq, Eq)]
pub enum Action {
    /// Create the directory `path` and every missing parent. A directory
    /// that is there already is no failure; a directory that cannot be
    /// created is reported with `failure`.
    CreateDir { path: String, failure: String },
    /// Create the file `path`, or empty an existing one, and write `bytes`.
    WriteFile { path: String, bytes: Vec<u8>, open_failure: String, write_failure: String },
    /// Append `line` and a line feed to the existing file `profile`, unless
    /// a line of the file contains `line` already. A file that cannot be
    /// opened or read is reported with `open_failure`.
    ExportPath { profile: String, line: String, open_failure: String, write_failure: String },
    /// Launch a shell and wait for it to end.
    Run { invocation: Invocation },
    /// Print `text` and a line feed.
    Print { text: String },
    /// Fetch the script at `url` and run it to its end.
    Install { url: String },
}

/// An `Action` as mathematical values.
#[verifier::ext_equal]
pub enum ActionView {
    CreateDir { path: Seq<char>, failure: Seq<char> },
    WriteFile {
        path: Seq<char>,
        bytes: Seq<u8>,
        open_failure: Seq<char>,
        write_failure: Seq<char>,
    },
    ExportPath {
        profile: Seq<char>,
        line: Seq<char>,
        open_failure: Seq<char>,
        write_failure: Seq<char>,
    },
    Run { invocation: InvocationView },
    Print { text: Seq<char> },
    Install { url: Seq<char> },
}

/// The view of an optional string.
pub open spec fn text_of(s: Option<String>) -> Option<Seq<char>> {
    match s {
        Some(t) => Some(t@),
        None => None,
    }
}

impl View for Action {
    type V = ActionView;

    open spec fn view(&self) -> ActionView {
        match *self {
            Action::CreateDir { path, failure } => ActionView::CreateDir {
                path: path@,
                failure: failure@,
            },
            Action::WriteFile { path, bytes, open_failure, write_failure } => ActionView::WriteFile {
                path: path@,
                bytes: bytes@,
                open_failure: open_failure@,
                write_failure: write_failure@,
            },
            Action::ExportPath { profile, line, open_failure, write_failure } => {
                ActionView::ExportPath {
                    profile: profile@,
                    line: line@,
                    open_failure: open_failure@,
                    write_failure: write_failure@,
                }
            },
            Action::Run { invocation } => ActionView::Run { invocation: invocation@ },
            Action::Print { text } => ActionView::Print { text: text@ },
            Action::Install { url } => ActionView::Install { url: url@ },
        }
    }
}

/// The views of a sequence of actions.
pub open spec fn views(actions: Seq<Action>) -> Seq<ActionView> {
    Seq::new(actions.len(), |i: int| actions[i]@)
}

} // verus!
