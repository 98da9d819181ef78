use rapture::action::Invocation;
use rapture::platform::{OsType, Platform};

fn invocation(program: &str, switch: &str, command: &str, failure: &str) -> Invocation {
    Invocation {
        program: program.to_string(),
        switch: switch.to_string(),
        command: command.to_string(),
        failure: failure.to_string(),
    }
}

#[test]
fn every_probed_system_has_a_family() {
    assert_eq!(Platform::of(OsType::Windows), Platform::Windows);
    assert_eq!(Platform::of(OsType::Macos), Platform::MacOS);
    assert_eq!(Platform::of(OsType::Ubuntu), Platform::Ubuntu);
    assert_eq!(Platform::of(OsType::Debian), Platform::Ubuntu);
    assert_eq!(Platform::of(OsType::Other), Platform::Unknown);
}

#[test]
fn get_finds_one_of_the_families() {
    let p = Platform::get();
    assert!(matches!(
        p,
        Platform::Windows | Platform::MacOS | Platform::Ubuntu | Platform::Unknown
    ));
    assert_eq!(Platform::get(), p);
}

#[test]
fn windows_runs_cmd() {
    assert_eq!(
        Platform::Windows.command("dir"),
        invocation("cmd", "/C", "dir", "Failed to run Windows command 'dir'")
    );
}

#[test]
fn macos_runs_bash() {
    assert_eq!(
        Platform::MacOS.command("ls -la"),
        invocation("bash", "-c", "ls -la", "Failed to run MacOS command 'ls -la'")
    );
}

#[test]
fn ubuntu_runs_bash() {
    assert_eq!(
        Platform::Ubuntu.command("ls -la"),
        invocation("bash", "-c", "ls -la", "Failed to run Ubuntu command 'ls -la'")
    );
}

#[test]
fn unknown_runs_sh() {
    assert_eq!(
        Platform::Unknown.command("ls -la"),
        invocation("sh", "-c", "ls -la", "Failed to run Linux command 'ls -la'")
    );
}

#[test]
fn semicolons_at_the_end_are_dropped() {
    assert_eq!(
        Platform::Ubuntu.command("cd x; make;"),
        invocation("bash", "-c", "cd x; make", "Failed to run Ubuntu command 'cd x; make'")
    );
    assert_eq!(
        Platform::Ubuntu.command("make;;;"),
        invocation("bash", "-c", "make", "Failed to run Ubuntu command 'make'")
    );
    assert_eq!(
        Platform::Ubuntu.command(";"),
        invocation("bash", "-c", "", "Failed to run Ubuntu command ''")
    );
    assert_eq!(
        Platform::Ubuntu.command("make; "),
        invocation("bash", "-c", "make; ", "Failed to run Ubuntu command 'make; '")
    );
}
