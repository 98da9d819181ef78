//! The operating system's own package manager, for packages that no script
//! installs: `apt`, `brew` or `scoop`.

use crate::action::{Invocation, InvocationView};
use crate::platform::Platform;
use vstd::prelude::*;
use vstd::string::StringExecFns;

verus! {

/// The package manager that is expected on `platform`.
pub open spec fn installer(platform: Platform) -> Seq<char> {
    match platform {
        Platform::Ubuntu => "apt"@,
        Platform::MacOS => "brew"@,
        Platform::Windows => "scoop"@,
        Platform::Unknown => "apt"@,
    }
}

/// The start of the command with which `platform`'s package manager
/// installs a package: the package's name follows it.
pub open spec fn install_prefix(platform: Platform) -> Seq<char> {
    match platform {
        Platform::Ubuntu => "sudo apt install "@,
        Platform::MacOS => "brew install "@,
        Platform::Windows => "scoop install "@,
        Platform::Unknown => "sudo apt install "@,
    }
}

/// The invocation that runs `prefix` and `name` in `platform`'s shell, with
/// the failure that names `manager`.
pub open spec fn managed(
    manager: Seq<char>,
    prefix: Seq<char>,
    name: Seq<char>,
    platform: Platform,
) -> InvocationView {
    let shell = platform.invocation(prefix + name);
    InvocationView {
        program: shell.program,
        switch: shell.switch,
        command: shell.command,
        failure: manager + " failed to install "@ + name,
    }
}

/// The invocation that installs `name` with `platform`'s package manager,
/// in `platform`'s shell.
pub open spec fn installation(platform: Platform, name: Seq<char>) -> InvocationView {
    managed(installer(platform), install_prefix(platform), name, platform)
}

/// The name of the package manager that is expected on `platform`.
pub fn installer_name(platform: Platform) -> (name: String)
    ensures
        name@ == installer(platform),
{
    match platform {
        Platform::Ubuntu => String::from_str("apt"),
        Platform::MacOS => String::from_str("brew"),
        Platform::Windows => String::from_str("scoop"),
        Platform::Unknown => String::from_str("apt"),
    }
}

/// Describes how to install `name` with `platform`'s package manager.
pub fn install(name: String, platform: Platform) -> (inv: Invocation)
    ensures
        inv@ == installation(platform, name@),
{
    match platform {
        Platform::Ubuntu => apt_install(name, platform),
        Platform::MacOS => brew_install(name, platform),
        Platform::Windows => scoop_install(name, platform),
        Platform::Unknown => apt_install(name, platform),
    }
}

/// `manager command name`, run in `platform`'s shell, with the failure that
/// names the manager.
fn manager_install(manager: &str, command: &str, name: String, platform: Platform) -> (inv:
    Invocation)
    ensures
        inv@ == managed(manager@, command@, name@, platform),
{
    let mut line = String::from_str(command);
    line.append(name.as_str());
    let shell = platform.command(line.as_str());
    let mut failure = String::from_str(manager);
    failure.append(" failed to install ");
    failure.append(name.as_str());
    Invocation { program: shell.program, switch: shell.switch, command: shell.command, failure }
}

/// Describes how to install `name` with `apt`.
fn apt_install(name: String, platform: Platform) -> (inv: Invocation)
    ensures
        inv@ == managed("apt"@, "sudo apt install "@, name@, platform),
{
    manager_install("apt", "sudo apt install ", name, platform)
}

/// Describes how to install `name` with `brew`.
fn brew_install(name: String, platform: Platform) -> (inv: Invocation)
    ensures
        inv@ == managed("brew"@, "brew install "@, name@, platform),
{
    manager_install("brew", "brew install ", name, platform)
}

/// Describes how to install `name` with `scoop`.
fn scoop_install(name: String, platform: Platform) -> (inv: Invocation)
    ensures
        inv@ == managed("scoop"@, "scoop install "@, name@, platform),
{
    manager_install("scoop", "scoop install ", name, platform)
}

} // verus!
