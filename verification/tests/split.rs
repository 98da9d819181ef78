use rapture::script::{split, split_first_space, Command};
use rapture::platform::Platform;

fn split_parts(s: &str) -> Result<(String, String), ()> {
    split_first_space(s.to_string())
}

fn split_ok(head: &str, tail: &str) -> Result<(String, String), ()> {
    Ok((head.to_string(), tail.to_string()))
}

#[test]
fn a_command_and_its_argument() {
    assert_eq!(split_parts("install http://x"), split_ok("install", "http://x"));
}

#[test]
fn a_line_of_one_word_has_no_parts() {
    assert_eq!(split_parts("install"), Err(()));
}

#[test]
fn the_empty_line_has_no_parts() {
    assert_eq!(split_parts(""), Err(()));
}

#[test]
fn a_blank_at_the_very_end_is_no_split() {
    assert_eq!(split_parts("install "), Err(()));
    assert_eq!(split_parts(" "), Err(()));
    assert_eq!(split_parts("a\t"), Err(()));
}

#[test]
fn only_the_first_blank_splits() {
    assert_eq!(split_parts("echo hello big world"), split_ok("echo", "hello big world"));
    assert_eq!(split_parts("a\tb c"), split_ok("a", "b c"));
    assert_eq!(split_parts("a\nb"), split_ok("a", "b"));
}

#[test]
fn both_parts_are_trimmed() {
    assert_eq!(split_parts("echo   hello world  "), split_ok("echo", "hello world"));
    assert_eq!(split_parts("\u{A0}mkdir x\r"), split_ok("mkdir", "x"));
    assert_eq!(split_parts("mkdir  "), split_ok("mkdir", ""));
}

#[test]
fn a_line_that_starts_with_a_blank_has_an_empty_first_part() {
    assert_eq!(split_parts("  x"), split_ok("", "x"));
    assert_eq!(split_parts("   "), split_ok("", ""));
}

#[test]
fn characters_count_not_bytes() {
    assert_eq!(split_parts("écho ß"), split_ok("écho", "ß"));
    assert_eq!(split_parts("日本 語"), split_ok("日本", "語"));
    assert_eq!(split_parts("日本語"), Err(()));
}

#[test]
fn split_gives_slices_of_the_line() {
    let line: Vec<char> = "mkdir  a b ".chars().collect();
    let (head, tail) = split(&line).unwrap();
    assert_eq!(head.iter().collect::<String>(), "mkdir");
    assert_eq!(tail.iter().collect::<String>(), "a b");
    let word: Vec<char> = "mkdir".chars().collect();
    assert!(split(&word).is_none());
}

fn parse_word(word: &str) -> Command {
    let chars: Vec<char> = word.chars().collect();
    Command::parse(&chars)
}

#[test]
fn every_command_word_is_known() {
    assert_eq!(parse_word("package"), Command::Package);
    assert_eq!(parse_word("git-clone"), Command::GitClone);
    assert_eq!(parse_word("rapt-install"), Command::RaptInstall);
    assert_eq!(parse_word("backend-install"), Command::BackendInstall);
    assert_eq!(parse_word("write-hex"), Command::WriteHex);
    assert_eq!(parse_word("mkdir"), Command::Mkdir);
    assert_eq!(parse_word("echo"), Command::Echo);
    assert_eq!(parse_word("add-path"), Command::AddPath);
    assert_eq!(parse_word("#"), Command::Comment);
    assert_eq!(parse_word("WINDOWS"), Command::Guard(Platform::Windows));
    assert_eq!(parse_word("MACOS"), Command::Guard(Platform::MacOS));
    assert_eq!(parse_word("UBUNTU"), Command::Guard(Platform::Ubuntu));
    assert_eq!(parse_word("LINUX"), Command::Guard(Platform::Ubuntu));
    assert_eq!(parse_word("UNKNOWN"), Command::Guard(Platform::Unknown));
    assert_eq!(parse_word("*"), Command::Always);
}

#[test]
fn command_words_match_exactly() {
    assert_eq!(parse_word("Package"), Command::Unrecognized);
    assert_eq!(parse_word("windows"), Command::Unrecognized);
    assert_eq!(parse_word("mkdirs"), Command::Unrecognized);
    assert_eq!(parse_word("#!"), Command::Unrecognized);
    assert_eq!(parse_word(""), Command::Unrecognized);
    assert_eq!(parse_word("frobnicate"), Command::Unrecognized);
}
