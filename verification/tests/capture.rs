use rapture::action::Action;
use rapture::capture::{capture, is_hidden, relative, Entry};
use std::path::Path;
use rapture::platform::Platform;
use rapture::script::Script;

fn dir(name: &str, path: &str) -> Entry {
    Entry { name: Some(name.to_string()), path: path.to_string(), contents: None }
}

fn file(name: &str, path: &str, bytes: &[u8]) -> Entry {
    Entry { name: Some(name.to_string()), path: path.to_string(), contents: Some(bytes.to_vec()) }
}

fn tree() -> Vec<Entry> {
    vec![
        dir(".", "."),
        file("a.txt", "./a.txt", b"hi\n"),
        dir("src", "./src"),
        file("main.rs", "./src/main.rs", &[0, 1, 254, 255]),
        file("empty", "./src/empty", b""),
        dir("deep dir", "./src/deep dir"),
    ]
}

#[test]
fn hidden_names_start_with_a_dot() {
    assert!(is_hidden(Some(".git")));
    assert!(is_hidden(Some(".bashrc")));
    assert!(is_hidden(Some("..")));
    assert!(is_hidden(Some("...")));
}

#[test]
fn the_single_dot_is_not_hidden() {
    assert!(!is_hidden(Some(".")));
}

#[test]
fn other_names_are_not_hidden() {
    assert!(!is_hidden(Some("")));
    assert!(!is_hidden(Some("a.txt")));
    assert!(!is_hidden(Some("a.")));
    assert!(!is_hidden(Some(" .git")));
    assert!(!is_hidden(None));
}

#[test]
fn the_script_goes_to_a_file_named_after_the_package() {
    assert_eq!(capture("pkg", ".", &vec![]).file, "pkg.rapt");
}

#[test]
fn the_script_of_nothing_is_the_declaration() {
    assert_eq!(capture("pkg", ".", &vec![]).text, "package pkg\n");
}

#[test]
fn the_script_lists_directories_first_and_files_then() {
    assert_eq!(
        capture("pkg", ".", &tree()).text,
        "package pkg\n\
         mkdir .\n\
         mkdir src\n\
         mkdir src/deep dir\n\
         write-hex a.txt 68690a\n\
         write-hex src/main.rs 0001feff\n\
         write-hex src/empty \n"
    );
}

#[test]
fn hidden_entries_are_left_out() {
    let mut entries = tree();
    entries.insert(1, dir(".git", "./.git"));
    entries.insert(3, file(".gitignore", "./.gitignore", b"target"));
    entries.push(file(".hidden", "./src/.hidden", b"x"));
    assert_eq!(capture("pkg", ".", &entries), capture("pkg", ".", &tree()));
}

#[test]
fn an_entry_without_a_readable_name_is_kept() {
    let entries = vec![Entry { name: None, path: "./x".to_string(), contents: None }];
    assert_eq!(capture("pkg", ".", &entries).text, "package pkg\nmkdir x\n");
}

#[test]
fn a_captured_script_rebuilds_the_tree() {
    let script = capture("pkg", ".", &tree());
    let plan = Script::new(&script.text).run(Platform::Ubuntu, "/home/u");
    assert_eq!(plan.failure, None);
    let made = |path: &str| Action::CreateDir {
        path: path.to_string(),
        failure: format!("Failed to create directory {}", path),
    };
    let written = |path: &str, bytes: &[u8]| Action::WriteFile {
        path: path.to_string(),
        bytes: bytes.to_vec(),
        open_failure: format!("Could not open file '{}'", path),
        write_failure: format!("Could not write decoded bytes to file '{}'", path),
    };
    assert_eq!(
        plan.actions,
        vec![
            made("/home/u/.rapture/pkg"),
            Action::ExportPath {
                profile: "/home/u/.bashrc".to_string(),
                line: "export PATH=\"$PATH:/home/u/.rapture/pkg\"".to_string(),
                open_failure: "Failed to add pkg to PATH".to_string(),
                write_failure: "Failed to append to file /home/u/.bashrc".to_string(),
            },
            made("/home/u/.rapture/pkg/."),
            made("/home/u/.rapture/pkg/src"),
            made("/home/u/.rapture/pkg/src/deep dir"),
            written("/home/u/.rapture/pkg/a.txt", b"hi\n"),
            written("/home/u/.rapture/pkg/src/main.rs", &[0, 1, 254, 255]),
            written("/home/u/.rapture/pkg/src/empty", b""),
        ]
    );
}

#[test]
fn a_captured_file_of_every_byte_value_comes_back() {
    let all: Vec<u8> = (0..=255).collect();
    let script = capture("pkg", ".", &vec![file("all.bin", "./all.bin", &all)]);
    let plan = Script::new(&script.text).run(Platform::Unknown, "/");
    assert_eq!(plan.failure, None);
    assert_eq!(plan.actions.len(), 3);
    assert_eq!(
        plan.actions[2],
        Action::WriteFile {
            path: "/.rapture/pkg/all.bin".to_string(),
            bytes: all,
            open_failure: "Could not open file '/.rapture/pkg/all.bin'".to_string(),
            write_failure: "Could not write decoded bytes to file '/.rapture/pkg/all.bin'"
                .to_string(),
        }
    );
}

#[test]
fn a_file_path_with_a_blank_does_not_come_back() {
    let script = capture("pkg", ".", &vec![file("my file", "./my file", &[1])]);
    assert_eq!(script.text, "package pkg\nwrite-hex my file 01\n");
    let plan = Script::new(&script.text).run(Platform::Ubuntu, "/home/u");
    assert_eq!(plan.failure, Some("Could not decode hex code 'file 01'".to_string()));
}

#[test]
fn an_entry_is_named_by_its_path_beneath_the_root() {
    assert_eq!(relative("mydir", "mydir/src/main.rs"), "src/main.rs");
    assert_eq!(relative("mydir", "mydir/a"), "a");
    assert_eq!(relative("mydir/", "mydir/a"), "a");
    assert_eq!(relative(".", "./a/b"), "a/b");
    assert_eq!(relative("..", "../a"), "a");
    assert_eq!(relative("/", "/etc/hosts"), "etc/hosts");
    assert_eq!(relative("/abs/dir", "/abs/dir/x"), "x");
    assert_eq!(relative("a", "a//b"), "b");
}

#[test]
fn the_root_is_named_by_a_single_dot() {
    assert_eq!(relative("mydir", "mydir"), ".");
    assert_eq!(relative(".", "."), ".");
    assert_eq!(relative("/", "/"), ".");
    assert_eq!(relative("mydir", "mydir/"), ".");
    assert_eq!(relative("", ""), ".");
}

#[test]
fn a_path_that_is_not_beneath_the_root_keeps_its_name() {
    assert_eq!(relative("my", "mydir/a"), "mydir/a");
    assert_eq!(relative("a", "b/c"), "b/c");
    assert_eq!(relative("a/b", "a"), "a");
    assert_eq!(relative("", "a"), "a");
    assert_eq!(relative("", "/a"), "/a");
}

#[test]
fn relative_agrees_with_stripping_the_prefix_of_a_path() {
    let roots = ["mydir", "mydir/", ".", "/", "/abs/dir", "a/b", "..", "my"];
    let paths = ["mydir/x", "mydir/x/y", "./x", "/abs/dir/x/y", "/etc", "a/b/c", "../q", "my/z"];
    for root in roots {
        for path in paths {
            if let Ok(rest) = Path::new(path).strip_prefix(root) {
                assert_eq!(relative(root, path), rest.to_str().unwrap(), "{:?} {:?}", root, path);
            } else {
                assert_eq!(relative(root, path), path, "{:?} {:?}", root, path);
            }
        }
    }
}

#[test]
fn a_tree_under_an_absolute_directory_is_rebuilt_in_the_package() {
    let entries = vec![
        dir("dir", "/abs/dir"),
        dir("src", "/abs/dir/src"),
        file("a.txt", "/abs/dir/src/a.txt", &[1, 2]),
    ];
    let script = capture("pkg", "/abs/dir", &entries);
    assert_eq!(script.text, "package pkg\nmkdir .\nmkdir src\nwrite-hex src/a.txt 0102\n");
    let plan = Script::new(&script.text).run(Platform::Ubuntu, "/home/u");
    assert_eq!(plan.failure, None);
    let paths: Vec<String> = plan
        .actions
        .iter()
        .filter_map(|a| match a {
            Action::CreateDir { path, .. } => Some(path.clone()),
            Action::WriteFile { path, .. } => Some(path.clone()),
            _ => None,
        })
        .collect();
    assert_eq!(
        paths,
        vec![
            "/home/u/.rapture/pkg",
            "/home/u/.rapture/pkg/.",
            "/home/u/.rapture/pkg/src",
            "/home/u/.rapture/pkg/src/a.txt"
        ]
    );
}

#[test]
fn a_tree_under_a_named_directory_loses_the_directory_from_its_paths() {
    let entries = vec![
        dir("mydir", "mydir"),
        dir("sub", "mydir/sub"),
        file("f", "mydir/sub/f", &[255]),
    ];
    assert_eq!(
        capture("pkg", "mydir", &entries).text,
        "package pkg\nmkdir .\nmkdir sub\nwrite-hex sub/f ff\n"
    );
    let walked_with_a_separator = vec![
        dir("mydir", "mydir/"),
        dir("sub", "mydir/sub"),
        file("f", "mydir/sub/f", &[255]),
    ];
    assert_eq!(
        capture("pkg", "mydir/", &walked_with_a_separator).text,
        capture("pkg", "mydir", &entries).text
    );
}
