use rapture::text::{
    chars_of, contains, count_leading, count_trailing, find_first, lines, matches_at, same_text,
    skip_end, skip_start, string_of, trim, CharClass,
};

fn text_chars(s: &str) -> Vec<char> {
    s.chars().collect()
}

fn text_string(v: &[char]) -> String {
    v.iter().collect()
}

#[test]
fn whitespace_class_is_the_unicode_property() {
    let mut n: u32 = 0;
    while n <= 0x10FFFF {
        if let Some(c) = char::from_u32(n) {
            assert_eq!(CharClass::Whitespace.contains(c), c.is_whitespace(), "U+{:04X}", n);
        }
        n += 1;
    }
}

#[test]
fn blank_class_is_space_tab_and_line_feed() {
    assert!(CharClass::Blank.contains(' '));
    assert!(CharClass::Blank.contains('\t'));
    assert!(CharClass::Blank.contains('\n'));
    assert!(!CharClass::Blank.contains('\r'));
    assert!(!CharClass::Blank.contains('\u{A0}'));
    assert!(!CharClass::Blank.contains('a'));
}

#[test]
fn just_class_is_one_character() {
    assert!(CharClass::Just(';').contains(';'));
    assert!(!CharClass::Just(';').contains(':'));
}

#[test]
fn chars_of_gives_every_character() {
    assert_eq!(chars_of(""), Vec::<char>::new());
    assert_eq!(chars_of("aß日🦀"), vec!['a', 'ß', '日', '🦀']);
}

#[test]
fn string_of_holds_the_characters() {
    assert_eq!(string_of(&[]), "");
    assert_eq!(string_of(&['a', 'ß', '日', '🦀']), "aß日🦀");
    assert_eq!(string_of(&chars_of("write-hex a 00")), "write-hex a 00");
}

#[test]
fn counting_and_finding() {
    let s = text_chars("  ab; c;;");
    assert_eq!(count_leading(&s, CharClass::Whitespace), 2);
    assert_eq!(count_leading(&s, CharClass::Just('a')), 0);
    assert_eq!(count_trailing(&s, CharClass::Just(';')), 2);
    assert_eq!(count_trailing(&s, CharClass::Whitespace), 0);
    assert_eq!(find_first(&s, CharClass::Just(';')), 4);
    assert_eq!(find_first(&s, CharClass::Blank), 0);
    assert_eq!(find_first(&s, CharClass::Just('z')), 9);
    assert_eq!(count_leading(&text_chars("   "), CharClass::Whitespace), 3);
    assert_eq!(count_trailing(&text_chars("   "), CharClass::Whitespace), 3);
    assert_eq!(find_first(&[], CharClass::Blank), 0);
}

#[test]
fn stripping_takes_every_character_of_the_class() {
    assert_eq!(text_string(skip_end(&text_chars("make;;;"), CharClass::Just(';'))), "make");
    assert_eq!(text_string(skip_end(&text_chars("make; install"), CharClass::Just(';'))), "make; install");
    assert_eq!(text_string(skip_end(&text_chars(";;"), CharClass::Just(';'))), "");
    assert_eq!(text_string(skip_start(&text_chars("\"\"url\""), CharClass::Just('"'))), "url\"");
    assert_eq!(text_string(skip_start(&text_chars("url"), CharClass::Just('"'))), "url");
}

#[test]
fn trim_agrees_with_the_standard_library() {
    let samples = [
        "",
        " ",
        "a",
        "  a  ",
        "\t a b \r\n",
        "\u{A0}x\u{2003}",
        "\u{3000}\u{3000}",
        "a \u{85}",
        "\u{200B}a\u{200B}",
        "\u{FEFF}a",
        " mkdir  x y ",
    ];
    for s in samples {
        assert_eq!(text_string(trim(&text_chars(s))), s.trim(), "{:?}", s);
    }
}

#[test]
fn lines_agree_with_the_standard_library() {
    let samples = [
        "",
        "\n",
        "a",
        "a\n",
        "a\nb",
        "a\r\nb\r\n",
        "a\r",
        "a\rb\n",
        "\r\n",
        "\n\n",
        "a\n\nb\n",
        "a\r\r\n",
        "package p\nmkdir x\r\nwrite-hex f 00\n",
    ];
    for s in samples {
        let got: Vec<String> = lines(&text_chars(s)).iter().map(|l| text_string(l)).collect();
        let want: Vec<String> = s.lines().map(|l| l.to_string()).collect();
        assert_eq!(got, want, "{:?}", s);
    }
}

#[test]
fn lines_of_a_small_text() {
    let got = lines(&text_chars("one\r\ntwo\n\nfour"));
    assert_eq!(got, vec![text_chars("one"), text_chars("two"), text_chars(""), text_chars("four")]);
}

#[test]
fn matching_and_containing() {
    let hay = text_chars("export PATH=\"$PATH:/x\"");
    assert!(matches_at(&hay, &text_chars("export"), 0));
    assert!(!matches_at(&hay, &text_chars("export"), 1));
    assert!(matches_at(&hay, &text_chars("PATH"), 7));
    assert!(!matches_at(&hay, &text_chars("PATH"), 20));
    assert!(matches_at(&hay, &[], hay.len()));
    assert!(!matches_at(&hay, &[], hay.len() + 1));
    assert!(contains(&hay, &text_chars("$PATH:/x")));
    assert!(contains(&hay, &text_chars("\"")));
    assert!(contains(&hay, &[]));
    assert!(contains(&hay, &hay));
    assert!(!contains(&hay, &text_chars("$PATH:/y")));
    assert!(!contains(&text_chars("ab"), &text_chars("abc")));
    assert!(contains(&[], &[]));
}

#[test]
fn contains_agrees_with_the_standard_library() {
    let hays = ["", "a", "aaab", "abcabc", "export PATH=\"$PATH:/home/u/.rapture/p\""];
    let needles = ["", "a", "ab", "aab", "cab", "bc", "abcabcd", "/home/u/.rapture/p\""];
    for h in hays {
        for n in needles {
            assert_eq!(contains(&text_chars(h), &text_chars(n)), h.contains(n), "{:?} in {:?}", n, h);
        }
    }
}

#[test]
fn same_text_compares_every_character() {
    assert!(same_text(&text_chars("mkdir"), &text_chars("mkdir")));
    assert!(!same_text(&text_chars("mkdir"), &text_chars("mkdiR")));
    assert!(!same_text(&text_chars("mkdir"), &text_chars("mkdir ")));
    assert!(same_text(&[], &[]));
}
