use rapture::action::{Action, Invocation};
use rapture::platform::Platform;
use rapture::script::{Plan, Script};

const HOME: &str = "/home/u";
const UNDECLARED: &str =
    " without declaring the install script as a package installer via the `package PACKAGE_NAME` rapture command.";

fn run_on(text: &str, platform: Platform) -> Plan {
    Script::new(text).run(platform, HOME)
}

fn run_script(text: &str) -> Plan {
    run_on(text, Platform::Ubuntu)
}

fn bash(command: &str) -> Action {
    Action::Run {
        invocation: Invocation {
            program: "bash".to_string(),
            switch: "-c".to_string(),
            command: command.to_string(),
            failure: format!("Failed to run Ubuntu command '{}'", command),
        },
    }
}

fn declared(name: &str) -> Vec<Action> {
    vec![
        Action::CreateDir {
            path: format!("/home/u/.rapture/{}", name),
            failure: format!("Failed to create directory /home/u/.rapture/{}", name),
        },
        Action::ExportPath {
            profile: "/home/u/.bashrc".to_string(),
            line: format!("export PATH=\"$PATH:/home/u/.rapture/{}\"", name),
            open_failure: format!("Failed to add {} to PATH", name),
            write_failure: "Failed to append to file /home/u/.bashrc".to_string(),
        },
    ]
}

fn made(path: &str) -> Action {
    Action::CreateDir {
        path: path.to_string(),
        failure: format!("Failed to create directory {}", path),
    }
}

fn written(path: &str, bytes: &[u8]) -> Action {
    Action::WriteFile {
        path: path.to_string(),
        bytes: bytes.to_vec(),
        open_failure: format!("Could not open file '{}'", path),
        write_failure: format!("Could not write decoded bytes to file '{}'", path),
    }
}

fn after_declaration(name: &str, more: Vec<Action>) -> Vec<Action> {
    let mut all = declared(name);
    all.extend(more);
    all
}

#[test]
fn the_empty_script_asks_for_nothing() {
    let plan = run_script("");
    assert_eq!(plan.actions, vec![]);
    assert_eq!(plan.failure, None);
}

#[test]
fn package_creates_the_directory_and_puts_it_on_the_path() {
    let plan = run_script("package p\n");
    assert_eq!(plan.actions, declared("p"));
    assert_eq!(plan.failure, None);
}

#[test]
fn package_then_mkdir_succeeds() {
    let plan = run_script("package p\nmkdir x\n");
    assert_eq!(plan.actions, after_declaration("p", vec![made("/home/u/.rapture/p/x")]));
    assert_eq!(plan.failure, None);
}

#[test]
fn mkdir_before_package_is_an_error() {
    let plan = run_script("mkdir x\npackage p\n");
    assert_eq!(plan.actions, vec![]);
    assert_eq!(plan.failure, Some(format!("Tried to make directory{}", UNDECLARED)));
}

#[test]
fn git_clone_before_package_is_an_error() {
    let plan = run_script("git-clone https://h/r.git");
    assert_eq!(plan.actions, vec![]);
    assert_eq!(
        plan.failure,
        Some(format!(
            "Tried to clone repository into package install directory{}",
            UNDECLARED
        ))
    );
}

#[test]
fn write_hex_before_package_is_an_error() {
    let plan = run_script("write-hex a.bin 00");
    assert_eq!(plan.actions, vec![]);
    assert_eq!(plan.failure, Some(format!("Tried to write hex to a file{}", UNDECLARED)));
}

#[test]
fn add_path_before_package_is_an_error() {
    let plan = run_script("add-path bin");
    assert_eq!(plan.actions, vec![]);
    assert_eq!(plan.failure, Some(format!("Tried to add to path{}", UNDECLARED)));
}

#[test]
fn mkdir_with_parents() {
    let plan = run_script("package p\nmkdir ./cmake/contrib/profiling\n");
    assert_eq!(
        plan.actions,
        after_declaration("p", vec![made("/home/u/.rapture/p/./cmake/contrib/profiling")])
    );
}

#[test]
fn a_second_package_takes_over() {
    let plan = run_script("package p\nmkdir a\npackage q\nmkdir b\n");
    let mut want = after_declaration("p", vec![made("/home/u/.rapture/p/a")]);
    want.extend(after_declaration("q", vec![made("/home/u/.rapture/q/b")]));
    assert_eq!(plan.actions, want);
    assert_eq!(plan.failure, None);
}

#[test]
fn git_clone_takes_the_quotes_off() {
    let clone = Action::Run {
        invocation: Invocation {
            program: "bash".to_string(),
            switch: "-c".to_string(),
            command: "cd /home/u/.rapture/p; git clone https://h/r.git".to_string(),
            failure: "Could not clone git repo 'https://h/r.git'".to_string(),
        },
    };
    for line in [
        "git-clone https://h/r.git",
        "git-clone \"https://h/r.git\"",
        "git-clone 'https://h/r.git'",
        "git-clone \"'https://h/r.git'\"",
    ] {
        let plan = run_script(&format!("package p\n{}\n", line));
        assert_eq!(plan.actions, after_declaration("p", vec![clone.clone()]), "{}", line);
        assert_eq!(plan.failure, None);
    }
}

#[test]
fn rapt_install_asks_for_the_other_script() {
    let plan = run_script("rapt-install http://x/s.rapt");
    assert_eq!(plan.actions, vec![Action::Install { url: "http://x/s.rapt".to_string() }]);
    assert_eq!(plan.failure, None);
}

#[test]
fn backend_install_goes_to_the_package_manager() {
    let plan = run_script("backend-install vim");
    assert_eq!(
        plan.actions,
        vec![Action::Run {
            invocation: Invocation {
                program: "bash".to_string(),
                switch: "-c".to_string(),
                command: "sudo apt install vim".to_string(),
                failure: "apt failed to install vim".to_string(),
            },
        }]
    );
}

#[test]
fn write_hex_writes_the_decoded_bytes() {
    let plan = run_script("package p\nwrite-hex dir/a.bin 00ff10Ab\n");
    assert_eq!(
        plan.actions,
        after_declaration("p", vec![written("/home/u/.rapture/p/dir/a.bin", &[0, 255, 16, 171])])
    );
    assert_eq!(plan.failure, None);
}

#[test]
fn write_hex_without_digits_writes_an_empty_file() {
    let plan = run_script("package p\nwrite-hex a.txt \n");
    assert_eq!(plan.actions, after_declaration("p", vec![written("/home/u/.rapture/p/a.txt", &[])]));
    assert_eq!(plan.failure, None);
}

#[test]
fn write_hex_without_a_path_is_passed_over() {
    let plan = run_script("package p\nwrite-hex   \nmkdir x\n");
    assert_eq!(plan.actions, after_declaration("p", vec![made("/home/u/.rapture/p/x")]));
    assert_eq!(plan.failure, None);
}

#[test]
fn write_hex_with_bad_digits_is_an_error() {
    let plan = run_script("package p\nwrite-hex a.bin 0g\nmkdir x\n");
    assert_eq!(plan.actions, declared("p"));
    assert_eq!(plan.failure, Some("Could not decode hex code '0g'".to_string()));
}

#[test]
fn write_hex_with_an_odd_number_of_digits_is_an_error() {
    let plan = run_script("package p\nwrite-hex a.bin abc\n");
    assert_eq!(plan.actions, declared("p"));
    assert_eq!(plan.failure, Some("Could not decode hex code 'abc'".to_string()));
}

#[test]
fn write_hex_with_a_blank_in_the_path_is_an_error() {
    let plan = run_script("package p\nwrite-hex my file 00\n");
    assert_eq!(plan.actions, declared("p"));
    assert_eq!(plan.failure, Some("Could not decode hex code 'file 00'".to_string()));
}

#[test]
fn echo_prints_its_argument() {
    let plan = run_script("echo hello  big world ");
    assert_eq!(plan.actions, vec![Action::Print { text: "hello  big world".to_string() }]);
}

#[test]
fn add_path_puts_a_package_directory_on_the_path() {
    let plan = run_script("package p\nadd-path bin\n");
    assert_eq!(
        plan.actions,
        after_declaration(
            "p",
            vec![Action::ExportPath {
                profile: "/home/u/.bashrc".to_string(),
                line: "export PATH=\"$PATH:/home/u/.rapture/p/bin\"".to_string(),
                open_failure: "Failed to add /home/u/.rapture/p/bin to PATH".to_string(),
                write_failure: "Failed to append to file /home/u/.bashrc".to_string(),
            }]
        )
    );
}

#[test]
fn comments_and_blank_lines_ask_for_nothing() {
    let plan = run_script("# a comment\n\n   \n#\n \n# another one\r\n");
    assert_eq!(plan.actions, vec![]);
    assert_eq!(plan.failure, None);
}

#[test]
fn a_line_of_one_word_is_passed_over() {
    let plan = run_script("install\nfrobnicate\nmkdir\necho hi\n");
    assert_eq!(plan.actions, vec![Action::Print { text: "hi".to_string() }]);
    assert_eq!(plan.failure, None);
}

#[test]
fn an_unrecognized_command_ends_the_script() {
    let plan = run_script("echo one\nfrobnicate foo\necho two\n");
    assert_eq!(plan.actions, vec![Action::Print { text: "one".to_string() }]);
    assert_eq!(plan.failure, Some("Unrecognized command 'frobnicate foo'".to_string()));
}

#[test]
fn a_command_word_in_another_case_is_unrecognized() {
    let plan = run_script("Mkdir x");
    assert_eq!(plan.failure, Some("Unrecognized command 'Mkdir x'".to_string()));
}

#[test]
fn an_argument_without_a_command_is_unrecognized() {
    let plan = run_script("  x");
    assert_eq!(plan.failure, Some("Unrecognized command ' x'".to_string()));
}

#[test]
fn a_comment_without_a_blank_after_the_sign_is_unrecognized() {
    let plan = run_script("#comment here");
    assert_eq!(plan.failure, Some("Unrecognized command '#comment here'".to_string()));
}

fn guards() -> &'static str {
    "WINDOWS w\nMACOS m\nUBUNTU u\nLINUX l\nUNKNOWN k\n"
}

fn launch(program: &str, switch: &str, label: &str, command: &str) -> Action {
    Action::Run {
        invocation: Invocation {
            program: program.to_string(),
            switch: switch.to_string(),
            command: command.to_string(),
            failure: format!("Failed to run {} command '{}'", label, command),
        },
    }
}

#[test]
fn on_windows_only_the_windows_guard_runs() {
    let plan = run_on(guards(), Platform::Windows);
    assert_eq!(plan.actions, vec![launch("cmd", "/C", "Windows", "w")]);
    assert_eq!(plan.failure, None);
}

#[test]
fn on_macos_only_the_macos_guard_runs() {
    let plan = run_on(guards(), Platform::MacOS);
    assert_eq!(plan.actions, vec![launch("bash", "-c", "MacOS", "m")]);
}

#[test]
fn on_ubuntu_the_ubuntu_and_linux_guards_run() {
    let plan = run_on(guards(), Platform::Ubuntu);
    assert_eq!(
        plan.actions,
        vec![launch("bash", "-c", "Ubuntu", "u"), launch("bash", "-c", "Ubuntu", "l")]
    );
}

#[test]
fn on_an_unknown_system_only_the_unknown_guard_runs() {
    let plan = run_on(guards(), Platform::Unknown);
    assert_eq!(plan.actions, vec![launch("sh", "-c", "Linux", "k")]);
}

#[test]
fn the_star_runs_everywhere() {
    for (platform, program, switch, label) in [
        (Platform::Windows, "cmd", "/C", "Windows"),
        (Platform::MacOS, "bash", "-c", "MacOS"),
        (Platform::Ubuntu, "bash", "-c", "Ubuntu"),
        (Platform::Unknown, "sh", "-c", "Linux"),
    ] {
        let plan = run_on("* make install", platform);
        assert_eq!(plan.actions, vec![launch(program, switch, label, "make install")]);
    }
}

#[test]
fn a_shell_command_runs_in_the_package_directory() {
    let plan = run_script("package p\n* make;\nUBUNTU ./configure\n");
    assert_eq!(
        plan.actions,
        after_declaration(
            "p",
            vec![bash("cd /home/u/.rapture/p; make"), bash("cd /home/u/.rapture/p; ./configure")]
        )
    );
}

#[test]
fn a_shell_command_without_a_package_runs_as_it_is() {
    let plan = run_script("* make;;\n");
    assert_eq!(plan.actions, vec![bash("make")]);
}

#[test]
fn command_is_what_a_shell_line_asks_for() {
    let mut script = Script::new("package p\n");
    assert_eq!(
        Action::Run { invocation: script.command("ls", Platform::Ubuntu, HOME) },
        bash("ls")
    );
    script.run(Platform::Ubuntu, HOME);
    assert_eq!(
        Action::Run { invocation: script.command("ls", Platform::Ubuntu, HOME) },
        bash("cd /home/u/.rapture/p; ls")
    );
}

#[test]
fn step_reads_one_line_and_keeps_the_package() {
    let mut script = Script::new("");
    assert_eq!(script.step("mkdir x", Platform::Ubuntu, HOME), Err(format!("Tried to make directory{}", UNDECLARED)));
    assert_eq!(script.step("package p", Platform::Ubuntu, HOME), Ok(declared("p")));
    assert_eq!(
        script.step("mkdir x", Platform::Ubuntu, HOME),
        Ok(vec![made("/home/u/.rapture/p/x")])
    );
    assert_eq!(
        script.step("nonsense here", Platform::Ubuntu, HOME),
        Err("Unrecognized command 'nonsense here'".to_string())
    );
    assert_eq!(
        script.step("mkdir y", Platform::Ubuntu, HOME),
        Ok(vec![made("/home/u/.rapture/p/y")])
    );
    assert_eq!(script.step("", Platform::Ubuntu, HOME), Ok(vec![]));
}

#[test]
fn carriage_returns_before_line_feeds_end_lines() {
    let plan = run_script("package p\r\nmkdir x\r\n");
    assert_eq!(plan.actions, after_declaration("p", vec![made("/home/u/.rapture/p/x")]));
    assert_eq!(plan.failure, None);
}

#[test]
fn a_nested_package_name_is_kept_as_written() {
    let plan = run_script("package  my pkg \n");
    assert_eq!(plan.actions, declared("my pkg"));
}

#[test]
fn a_script_gives_its_text_back() {
    assert_eq!(Script::new("package p\n* ls\n").to_string(), "package p\n* ls\n");
    assert_eq!(Script::new("").to_string(), "");
}

#[test]
fn a_clone_reads_as_the_script_does() {
    let mut script = Script::new("package p\nmkdir x\n");
    let mut copy = script.clone();
    assert_eq!(copy.run(Platform::Ubuntu, HOME), script.run(Platform::Ubuntu, HOME));
}

#[test]
fn an_unrecognized_line_stops_the_script_whatever_follows() {
    let before = "package p\nmkdir a\necho one\n";
    let done = run_script(before);
    assert_eq!(done.failure, None);
    for behind in ["", "mkdir b\n", "frobnicate again\nwrite-hex x zz\n", "\n\n", "package q"] {
        for ending in ["\n", "\r\n"] {
            let plan = run_script(&format!("{}frobnicate foo{}{}", before, ending, behind));
            assert_eq!(plan.actions, done.actions, "{:?}", behind);
            assert_eq!(plan.failure, Some("Unrecognized command 'frobnicate foo'".to_string()));
        }
    }
}

#[test]
fn an_unrecognized_line_after_a_script_without_an_ending_stops_it() {
    let done = run_script("package p\nmkdir a");
    let plan = run_script("package p\nmkdir a\nfrobnicate foo\nmkdir b\n");
    assert_eq!(plan.actions, done.actions);
    assert_eq!(plan.failure, Some("Unrecognized command 'frobnicate foo'".to_string()));
}
