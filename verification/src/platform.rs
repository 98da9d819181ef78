//! The host's operating system family, and the shell that goes with it.

use crate::action::{Invocation, InvocationView};
use crate::text::{chars_of, skip_end, string_of, strip_end, CharClass};
use vstd::prelude::*;
use vstd::string::StringExecFns;

verus! {

/// The operating system families that a script can tell apart. A system that
/// is none of the first three is `Unknown`, and is taken to have a POSIX
/// shell.
#[derive(Clone, Copy, PartialEq, Eq, Structural, Debug)]
pub enum Platform {
    /// Windows, with `cmd`.
    Windows,
    /// macOS, with `bash`.
    MacOS,
    /// Ubuntu and Debian, with `bash`.
    Ubuntu,
    /// Any other system, with `sh`.
    Unknown,
}

/// What a probe of the running system can report: one of four systems by
/// name, or that it is another.
#[derive(Clone, Copy, PartialEq, Eq, Structural, Debug)]
pub enum OsType {
    Windows,
    Macos,
    Ubuntu,
    Debian,
    Other,
}

/// `os_info::get` probes the running system and `Info::os_type` gives the
/// type that it found. The result depends on the machine, so nothing is
/// claimed of it.
#[verifier::external_body]
fn probe() -> OsType {
    match os_info::get().os_type() {
        os_info::Type::Windows => OsType::Windows,
        os_info::Type::Macos => OsType::Macos,
        os_info::Type::Ubuntu => OsType::Ubuntu,
        os_info::Type::Debian => OsType::Debian,
        _ => OsType::Other,
    }
}

impl Platform {
    /// The family of a probed system. Debian counts as Ubuntu.
    pub open spec fn family(os: OsType) -> Platform {
        match os {
            OsType::Windows => Platform::Windows,
            OsType::Macos => Platform::MacOS,
            OsType::Ubuntu => Platform::Ubuntu,
            OsType::Debian => Platform::Ubuntu,
            OsType::Other => Platform::Unknown,
        }
    }

    /// The shell of the family.
    pub open spec fn shell(self) -> Seq<char> {
        match self {
            Platform::Windows => "cmd"@,
            Platform::MacOS => "bash"@,
            Platform::Ubuntu => "bash"@,
            Platform::Unknown => "sh"@,
        }
    }

    /// The switch with which the shell takes a command.
    pub open spec fn switch(self) -> Seq<char> {
        match self {
            Platform::Windows => "/C"@,
            _ => "-c"@,
        }
    }

    /// The family's name in messages.
    pub open spec fn label(self) -> Seq<char> {
        match self {
            Platform::Windows => "Windows"@,
            Platform::MacOS => "MacOS"@,
            Platform::Ubuntu => "Ubuntu"@,
            Platform::Unknown => "Linux"@,
        }
    }

    /// The invocation that runs `command` in the family's shell: the command
    /// goes without the semicolons at its end, which some shells refuse.
    pub open spec fn invocation(self, command: Seq<char>) -> InvocationView {
        let text = strip_end(command, CharClass::Just(';'));
        InvocationView {
            program: self.shell(),
            switch: self.switch(),
            command: text,
            failure: "Failed to run "@ + self.label() + " command '"@ + text + "'"@,
        }
    }

    /// Sorts a probed system into its family.
    pub fn of(os: OsType) -> (p: Platform)
        ensures
            p == Platform::family(os),
    {
        match os {
            OsType::Windows => Platform::Windows,
            OsType::Macos => Platform::MacOS,
            OsType::Ubuntu => Platform::Ubuntu,
            OsType::Debian => Platform::Ubuntu,
            OsType::Other => Platform::Unknown,
        }
    }

    /// Detects the family of the running system.
    pub fn get() -> (p: Platform)
        ensures
            exists|os: OsType| p == Platform::family(os),
    {
        Platform::of(probe())
    }

    /// Describes how to run `s` in the family's shell.
    pub fn command(self, s: &str) -> (inv: Invocation)
        ensures
            inv@ == self.invocation(s@),
    {
        let chars = chars_of(s);
        let text = string_of(skip_end(chars.as_slice(), CharClass::Just(';')));
        let (program, switch, label) = match self {
            Platform::Windows => ("cmd", "/C", "Windows"),
            Platform::MacOS => ("bash", "-c", "MacOS"),
            Platform::Ubuntu => ("bash", "-c", "Ubuntu"),
            Platform::Unknown => ("sh", "-c", "Linux"),
        };
        let mut failure = String::from_str("Failed to run ");
        failure.append(label);
        failure.append(" command '");
        failure.append(text.as_str());
        failure.append("'");
        Invocation {
            program: String::from_str(program),
            switch: String::from_str(switch),
            command: text,
            failure,
        }
    }
}

} // verus!
