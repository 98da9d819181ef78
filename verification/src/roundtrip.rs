//! A captured script read back. The script that `capture` writes for a
//! directory tree is, to the interpreter, the list of instructions that
//! creates every directory of the tree and writes every file of it with the
//! bytes that it had.

use crate::action::ActionView;
use crate::capture::{
    dir_lines, encoded, file_lines, hidden, instruction, lemma_decode_encode, script_lines,
    unlines, EntryView,
};
use crate::path::{joined, PathManager};
use crate::platform::Platform;
use crate::script::{hex_argument, split_line, write_file, Command, Script, Trace};
use crate::text::{
    is_whitespace, leading, lemma_first_in, lemma_leading, lemma_leading_run, lemma_trailing,
    lines_of, strip_start, trailing, trimmed, without_return, CharClass,
};
use vstd::prelude::*;

verus! {

/// Whether `s` comes back unchanged when it is written as the argument of
/// an instruction and read again: it is not empty, has no whitespace at
/// either end, and holds no line feed.
pub open spec fn clean(s: Seq<char>) -> bool {
    &&& s.len() > 0
    &&& !is_whitespace(s[0])
    &&& !is_whitespace(s.last())
    &&& forall|i: int| 0 <= i < s.len() ==> #[trigger] s[i] != '\n'
}

/// Whether `s` is clean and holds no blank, so that a blank after it ends
/// it.
pub open spec fn single_word(s: Seq<char>) -> bool {
    &&& clean(s)
    &&& forall|i: int| 0 <= i < s.len() ==> !CharClass::Blank.has(#[trigger] s[i])
}

/// Whether the script of the listing `entries` for the package `name` can
/// be read back: the package's name and the path of every directory are
/// clean, and the path of every file is a single word. Hidden entries do
/// not count, for the script leaves them out.
pub open spec fn restorable(name: Seq<char>, entries: Seq<EntryView>) -> bool {
    &&& clean(name)
    &&& forall|i: int|
        0 <= i < entries.len() && !hidden((#[trigger] entries[i]).name) ==> match entries[i].contents {
            None => clean(entries[i].path),
            Some(_) => single_word(entries[i].path),
        }
}

/// The actions that create the directories of `entries` in the package
/// `name`: one for each directory that is not hidden, in the listing's
/// order.
pub open spec fn restored_dirs(name: Seq<char>, entries: Seq<EntryView>, home: Seq<char>) -> Seq<
    ActionView,
>
    decreases entries.len(),
{
    if entries.len() == 0 {
        Seq::empty()
    } else {
        let e = entries.last();
        if e.contents is None && !hidden(e.name) {
            restored_dirs(name, entries.drop_last(), home).push(
                PathManager::ensure_dir(joined(PathManager::package_path(home, name), e.path)),
            )
        } else {
            restored_dirs(name, entries.drop_last(), home)
        }
    }
}

/// The actions that write the files of `entries` in the package `name`:
/// one for each file that is not hidden, with the file's bytes, in the
/// listing's order.
pub open spec fn restored_files(name: Seq<char>, entries: Seq<EntryView>, home: Seq<char>) -> Seq<
    ActionView,
>
    decreases entries.len(),
{
    if entries.len() == 0 {
        Seq::empty()
    } else {
        let e = entries.last();
        match e.contents {
            Some(bytes) if !hidden(e.name) => restored_files(name, entries.drop_last(), home).push(
                write_file(joined(PathManager::package_path(home, name), e.path), bytes),
            ),
            _ => restored_files(name, entries.drop_last(), home),
        }
    }
}

/// Whether each of `lines` can be a line of a text: it holds no line feed
/// and does not end in a carriage return.
pub open spec fn printable(lines: Seq<Seq<char>>) -> bool {
    forall|k: int|
        0 <= k < lines.len() ==> {
            &&& forall|i: int| 0 <= i < lines[k].len() ==> #[trigger] lines[k][i] != '\n'
            &&& (#[trigger] lines[k]).len() > 0 ==> lines[k].last() != '\r'
        }
}

/// Trimming takes away the whitespace before `a` and from `b` on, where
/// that is all the whitespace at the ends.
pub proof fn lemma_trimmed(s: Seq<char>, a: int, b: int)
    requires
        0 <= a <= b <= s.len(),
        forall|j: int| 0 <= j < a ==> is_whitespace(#[trigger] s[j]),
        forall|j: int| b <= j < s.len() ==> is_whitespace(#[trigger] s[j]),
        a < b ==> !is_whitespace(s[a]) && !is_whitespace(s[b - 1]),
    ensures
        trimmed(s) == s.subrange(a, b),
{
    let ws = CharClass::Whitespace;
    if a < b {
        lemma_leading(s, ws, a as nat);
        let t = s.skip(a);
        assert forall|j: int| t.len() - (s.len() - b) <= j < t.len() implies ws.has(
            #[trigger] t[j],
        ) by {
            assert(t[j] == s[a + j]);
        }
        assert(t[t.len() - (s.len() - b) - 1] == s[b - 1]);
        lemma_trailing(t, ws, (s.len() - b) as nat);
        assert(t.take(t.len() - (s.len() - b)) =~= s.subrange(a, b));
    } else {
        lemma_leading(s, ws, s.len());
        let t = s.skip(s.len() as int);
        assert(t =~= Seq::<char>::empty());
        assert(trailing(t, ws) == 0);
        assert(t.take(0) =~= s.subrange(a, b));
    }
}

/// A clean text is its own trimming.
pub proof fn lemma_trimmed_clean(s: Seq<char>)
    requires
        clean(s),
    ensures
        trimmed(s) == s,
{
    lemma_trimmed(s, 0, s.len() as int);
    assert(s.subrange(0, s.len() as int) =~= s);
}

/// A blank before a text does not change its trimming.
pub proof fn lemma_trimmed_after_blank(arg: Seq<char>)
    ensures
        trimmed(" "@ + arg) == trimmed(arg),
{
    reveal_strlit(" ");
    let s = " "@ + arg;
    assert(s.drop_first() =~= arg);
    assert(is_whitespace(s[0]));
    assert(leading(s, CharClass::Whitespace) == 1 + leading(arg, CharClass::Whitespace));
    lemma_leading_run(arg, CharClass::Whitespace);
    assert(strip_start(s, CharClass::Whitespace) =~= strip_start(arg, CharClass::Whitespace));
}

/// An instruction line of a single word and an argument splits into the
/// word and the trimmed argument.
pub proof fn lemma_split_instruction(word: Seq<char>, arg: Seq<char>)
    requires
        single_word(word),
        arg.len() > 0,
    ensures
        split_line(instruction(word, arg)) == Some((word, trimmed(arg))),
{
    reveal_strlit(" ");
    let s = instruction(word, arg);
    let i = word.len();
    assert forall|j: int| 0 <= j < i implies !CharClass::Blank.has(#[trigger] s[j]) by {
        assert(s[j] == word[j]);
    }
    assert(s[i as int] == ' ');
    lemma_first_in(s, CharClass::Blank, i);
    assert(s.take(i as int) =~= word);
    assert(s.skip(i as int) =~= " "@ + arg);
    lemma_trimmed_clean(word);
    lemma_trimmed_after_blank(arg);
}

/// A single word has no two parts.
pub proof fn lemma_split_word(word: Seq<char>)
    requires
        single_word(word),
    ensures
        split_line(word) is None,
{
    lemma_first_in(word, CharClass::Blank, word.len());
}

/// The three command words of a captured script name their commands, and
/// each is a single word.
pub proof fn lemma_capture_words()
    ensures
        Command::of("package"@) == Command::Package,
        Command::of("mkdir"@) == Command::Mkdir,
        Command::of("write-hex"@) == Command::WriteHex,
        single_word("package"@),
        single_word("mkdir"@),
        single_word("write-hex"@),
{
    reveal_strlit("package");
    reveal_strlit("git-clone");
    reveal_strlit("rapt-install");
    reveal_strlit("backend-install");
    reveal_strlit("write-hex");
    reveal_strlit("mkdir");
    assert("package"@.len() == 7);
    assert("git-clone"@.len() == 9);
    assert("rapt-install"@.len() == 12);
    assert("backend-install"@.len() == 15);
    assert("write-hex"@.len() == 9);
    assert("mkdir"@.len() == 5);
    assert("write-hex"@[0] != "git-clone"@[0]);
}

/// The characters of an instruction line: the word, a space, the argument.
pub proof fn lemma_instruction_chars(word: Seq<char>, arg: Seq<char>)
    ensures
        instruction(word, arg).len() == word.len() + 1 + arg.len(),
        forall|i: int| 0 <= i < word.len() ==> #[trigger] instruction(word, arg)[i] == word[i],
        instruction(word, arg)[word.len() as int] == ' ',
        forall|i: int|
            word.len() < i < instruction(word, arg).len() ==> #[trigger] instruction(word, arg)[i]
                == arg[i - word.len() - 1],
{
    reveal_strlit(" ");
}

/// An instruction line is printable where neither its word nor its
/// argument holds a line feed and the argument does not end in a carriage
/// return.
pub proof fn lemma_instruction_printable(word: Seq<char>, arg: Seq<char>)
    requires
        forall|i: int| 0 <= i < word.len() ==> #[trigger] word[i] != '\n',
        forall|i: int| 0 <= i < arg.len() ==> #[trigger] arg[i] != '\n',
        arg.len() > 0 ==> arg.last() != '\r',
    ensures
        forall|i: int|
            0 <= i < instruction(word, arg).len() ==> #[trigger] instruction(word, arg)[i] != '\n',
        instruction(word, arg).len() > 0,
        instruction(word, arg).last() != '\r',
{
    lemma_instruction_chars(word, arg);
    let line = instruction(word, arg);
    assert forall|i: int| 0 <= i < line.len() implies #[trigger] line[i] != '\n' by {
        if i < word.len() {
            assert(line[i] == word[i]);
        } else if i > word.len() {
            assert(line[i] == arg[i - word.len() - 1]);
        }
    }
    if arg.len() > 0 {
        assert(line.last() == arg[arg.len() - 1]);
    }
}

/// The argument of a captured `write-hex` line, as the interpreter reads
/// it: the path and the hexadecimal text come apart again, also where the
/// file is empty and there is no hexadecimal text.
pub proof fn lemma_hex_argument(path: Seq<char>, bytes: Seq<u8>)
    requires
        single_word(path),
    ensures
        trimmed(path + " "@ + encoded(bytes)).len() > 0,
        hex_argument(trimmed(path + " "@ + encoded(bytes))) == (path, encoded(bytes)),
        forall|i: int|
            0 <= i < (path + " "@ + encoded(bytes)).len() ==> #[trigger] (path + " "@ + encoded(
                bytes,
            ))[i] != '\n',
        (path + " "@ + encoded(bytes)).last() != '\r',
{
    let hex = encoded(bytes);
    let arg = path + " "@ + hex;
    assert(arg == instruction(path, hex));
    lemma_instruction_chars(path, hex);
    lemma_decode_encode(bytes);
    assert forall|i: int| 0 <= i < hex.len() implies #[trigger] hex[i] != '\n' && !is_whitespace(
        hex[i],
    ) by {
        assert(crate::capture::is_hex_digit(hex[i]));
    }
    assert forall|i: int| 0 <= i < arg.len() implies #[trigger] arg[i] != '\n' by {
        if i < path.len() {
            assert(arg[i] == path[i]);
        } else if i > path.len() {
            assert(arg[i] == hex[i - path.len() - 1]);
        }
    }
    assert(arg[0] == path[0]);
    if hex.len() > 0 {
        assert(arg.last() == hex[hex.len() - 1]);
        lemma_trimmed(arg, 0, arg.len() as int);
        assert(arg.subrange(0, arg.len() as int) =~= arg);
        lemma_split_instruction(path, hex);
        lemma_trimmed(hex, 0, hex.len() as int);
        assert(hex.subrange(0, hex.len() as int) =~= hex);
    } else {
        assert(arg[path.len() - 1] == path.last());
        assert forall|j: int| path.len() <= j < arg.len() implies is_whitespace(
            #[trigger] arg[j],
        ) by {
            assert(arg[j] == ' ');
        }
        lemma_trimmed(arg, 0, path.len() as int);
        assert(arg.subrange(0, path.len() as int) =~= path);
        lemma_split_word(path);
        assert(hex =~= Seq::<char>::empty());
    }
}

/// The declaration of a package with a clean name binds the name, creates
/// the package's directory and puts it on the `PATH`.
pub proof fn lemma_declaration_step(
    package: Option<Seq<char>>,
    name: Seq<char>,
    platform: Platform,
    home: Seq<char>,
)
    requires
        clean(name),
    ensures
        Script::step_of(package, instruction("package"@, name), platform, home) == Script::asks(
            Some(name),
            seq![PathManager::ensure_dir(PathManager::package_path(home, name))]
                + PathManager::path_actions(name, platform, home),
        ),
{
    lemma_capture_words();
    lemma_split_instruction("package"@, name);
    lemma_trimmed_clean(name);
}

/// A `mkdir` line with a clean path creates that directory in the package.
pub proof fn lemma_mkdir_step(
    name: Seq<char>,
    path: Seq<char>,
    platform: Platform,
    home: Seq<char>,
)
    requires
        clean(path),
    ensures
        Script::step_of(Some(name), instruction("mkdir"@, path), platform, home) == Script::asks(
            Some(name),
            seq![PathManager::ensure_dir(joined(PathManager::package_path(home, name), path))],
        ),
{
    lemma_capture_words();
    lemma_split_instruction("mkdir"@, path);
    lemma_trimmed_clean(path);
}

/// A `write-hex` line with a path of a single word and the hexadecimal
/// text of `bytes` writes `bytes` to that file in the package.
pub proof fn lemma_write_hex_step(
    name: Seq<char>,
    path: Seq<char>,
    bytes: Seq<u8>,
    platform: Platform,
    home: Seq<char>,
)
    requires
        single_word(path),
    ensures
        Script::step_of(
            Some(name),
            instruction("write-hex"@, path + " "@ + encoded(bytes)),
            platform,
            home,
        ) == Script::asks(
            Some(name),
            seq![write_file(joined(PathManager::package_path(home, name), path), bytes)],
        ),
{
    lemma_capture_words();
    lemma_decode_encode(bytes);
    lemma_hex_argument(path, bytes);
    lemma_split_instruction("write-hex"@, path + " "@ + encoded(bytes));
}

/// The lines of a text that was put together from lines are those lines.
pub proof fn lemma_lines_of_unlines(lines: Seq<Seq<char>>)
    requires
        printable(lines),
    ensures
        lines_of(unlines(lines)) == lines,
    decreases lines.len(),
{
    reveal_strlit("\n");
    if lines.len() == 0 {
        assert(lines_of(unlines(lines)) =~= lines);
    } else {
        let first = lines[0];
        let rest = lines.drop_first();
        let s = unlines(lines);
        let n = first.len();
        assert(s =~= first + "\n"@ + unlines(rest));
        assert forall|j: int| 0 <= j < n implies !CharClass::Just('\n').has(#[trigger] s[j]) by {
            assert(s[j] == first[j]);
        }
        assert(s[n as int] == '\n');
        lemma_first_in(s, CharClass::Just('\n'), n);
        assert(s.take(n as int) =~= first);
        assert(s.skip(n as int + 1) =~= unlines(rest));
        assert(without_return(first) == first);
        assert forall|k: int| 0 <= k < rest.len() implies {
            &&& forall|i: int| 0 <= i < rest[k].len() ==> #[trigger] rest[k][i] != '\n'
            &&& (#[trigger] rest[k]).len() > 0 ==> rest[k].last() != '\r'
        } by {
            assert(rest[k] == lines[k + 1]);
        }
        lemma_lines_of_unlines(rest);
        assert(lines_of(s) =~= lines);
    }
}

/// Reading one line more after lines that ended without an error adds
/// that line's actions.
pub proof fn lemma_run_push(
    package: Option<Seq<char>>,
    lines: Seq<Seq<char>>,
    line: Seq<char>,
    platform: Platform,
    home: Seq<char>,
)
    requires
        Script::run_of(package, lines, platform, home).failure is None,
        Script::step_of(
            Script::run_of(package, lines, platform, home).package,
            line,
            platform,
            home,
        ).effects is Ok,
    ensures
        Script::run_of(package, lines.push(line), platform, home) == (Trace {
            package: Script::step_of(
                Script::run_of(package, lines, platform, home).package,
                line,
                platform,
                home,
            ).package,
            actions: Script::run_of(package, lines, platform, home).actions + Script::step_of(
                Script::run_of(package, lines, platform, home).package,
                line,
                platform,
                home,
            ).effects->Ok_0,
            failure: None,
        }),
{
    let done = Script::run_of(package, lines, platform, home);
    let one = seq![line];
    assert(lines.push(line) =~= lines + one);
    Script::lemma_run_concat(package, lines, one, platform, home);
    let step = Script::step_of(done.package, line, platform, home);
    assert(one[0] == line);
    assert(one.drop_first() =~= Seq::<Seq<char>>::empty());
    reveal_with_fuel(Script::run_of, 2);
    let last = Script::run_of(done.package, one, platform, home);
    assert(last.actions =~= step.effects->Ok_0);
}

/// The `mkdir` lines of a restorable listing are printable, and read from
/// the package `name` they create the listing's directories.
pub proof fn lemma_run_dirs(
    name: Seq<char>,
    entries: Seq<EntryView>,
    platform: Platform,
    home: Seq<char>,
)
    requires
        restorable(name, entries),
    ensures
        printable(dir_lines(entries)),
        Script::run_of(Some(name), dir_lines(entries), platform, home) == (Trace {
            package: Some(name),
            actions: restored_dirs(name, entries, home),
            failure: None,
        }),
    decreases entries.len(),
{
    reveal_strlit(" ");
    reveal_strlit("mkdir");
    if entries.len() > 0 {
        let e = entries.last();
        let before = entries.drop_last();
        assert forall|i: int| 0 <= i < before.len() && !hidden((#[trigger] before[i]).name) implies match before[i].contents {
            None => clean(before[i].path),
            Some(_) => single_word(before[i].path),
        } by {
            assert(before[i] == entries[i]);
        }
        lemma_run_dirs(name, before, platform, home);
        if e.contents is None && !hidden(e.name) {
            let line = instruction("mkdir"@, e.path);
            lemma_mkdir_step(name, e.path, platform, home);
            lemma_run_push(Some(name), dir_lines(before), line, platform, home);
            lemma_instruction_printable("mkdir"@, e.path);
            let all = dir_lines(entries);
            assert forall|k: int| 0 <= k < all.len() implies {
                &&& forall|i: int| 0 <= i < all[k].len() ==> #[trigger] all[k][i] != '\n'
                &&& (#[trigger] all[k]).len() > 0 ==> all[k].last() != '\r'
            } by {
                if k < all.len() - 1 {
                    assert(all[k] == dir_lines(before)[k]);
                }
            }
        }
    } else {
        assert(restored_dirs(name, entries, home) =~= Seq::<ActionView>::empty());
    }
}

/// The `write-hex` lines of a restorable listing are printable, and read
/// from the package `name` they write the listing's files.
pub proof fn lemma_run_files(
    name: Seq<char>,
    entries: Seq<EntryView>,
    platform: Platform,
    home: Seq<char>,
)
    requires
        restorable(name, entries),
    ensures
        printable(file_lines(entries)),
        Script::run_of(Some(name), file_lines(entries), platform, home) == (Trace {
            package: Some(name),
            actions: restored_files(name, entries, home),
            failure: None,
        }),
    decreases entries.len(),
{
    reveal_strlit(" ");
    reveal_strlit("write-hex");
    if entries.len() > 0 {
        let e = entries.last();
        let before = entries.drop_last();
        assert forall|i: int| 0 <= i < before.len() && !hidden((#[trigger] before[i]).name) implies match before[i].contents {
            None => clean(before[i].path),
            Some(_) => single_word(before[i].path),
        } by {
            assert(before[i] == entries[i]);
        }
        lemma_run_files(name, before, platform, home);
        match e.contents {
            Some(bytes) if !hidden(e.name) => {
                let hex = encoded(bytes);
                let line = instruction("write-hex"@, e.path + " "@ + hex);
                lemma_write_hex_step(name, e.path, bytes, platform, home);
                lemma_run_push(Some(name), file_lines(before), line, platform, home);
                lemma_hex_argument(e.path, bytes);
                lemma_instruction_printable("write-hex"@, e.path + " "@ + hex);
                let all = file_lines(entries);
                assert forall|k: int| 0 <= k < all.len() implies {
                    &&& forall|i: int| 0 <= i < all[k].len() ==> #[trigger] all[k][i] != '\n'
                    &&& (#[trigger] all[k]).len() > 0 ==> all[k].last() != '\r'
                } by {
                    if k < all.len() - 1 {
                        assert(all[k] == file_lines(before)[k]);
                    }
                }
            },
            _ => {},
        }
    } else {
        assert(restored_files(name, entries, home) =~= Seq::<ActionView>::empty());
    }
}

/// A captured script, read by the interpreter, rebuilds what was captured.
/// For every restorable listing of a directory tree, and whatever package
/// was declared before: the lines of the script that `capture` writes are
/// read to the end without an error; they declare the package, and ask for
/// its directory, for its place on the `PATH`, for one directory for each
/// directory of the listing and for one file for each file of it, with the
/// file's own bytes, and for nothing else. Hidden entries are in neither.
pub proof fn lemma_capture_then_run(
    package: Option<Seq<char>>,
    name: Seq<char>,
    entries: Seq<EntryView>,
    platform: Platform,
    home: Seq<char>,
)
    requires
        restorable(name, entries),
    ensures
        Script::run_of(
            package,
            lines_of(unlines(script_lines(name, entries))),
            platform,
            home,
        ) == (Trace {
            package: Some(name),
            actions: seq![PathManager::ensure_dir(PathManager::package_path(home, name))]
                + PathManager::path_actions(name, platform, home) + restored_dirs(
                name,
                entries,
                home,
            ) + restored_files(name, entries, home),
            failure: None,
        }),
{
    reveal_strlit(" ");
    reveal_strlit("package");
    let declaration = instruction("package"@, name);
    let head = seq![declaration];
    let dirs = dir_lines(entries);
    let files = file_lines(entries);
    let all = script_lines(name, entries);
    lemma_run_dirs(name, entries, platform, home);
    lemma_run_files(name, entries, platform, home);
    lemma_instruction_printable("package"@, name);
    assert forall|k: int| 0 <= k < all.len() implies {
        &&& forall|i: int| 0 <= i < all[k].len() ==> #[trigger] all[k][i] != '\n'
        &&& (#[trigger] all[k]).len() > 0 ==> all[k].last() != '\r'
    } by {
        if k == 0 {
            assert(all[k] == declaration);
        } else if k < 1 + dirs.len() {
            assert(all[k] == dirs[k - 1]);
        } else {
            assert(all[k] == files[k - 1 - dirs.len()]);
        }
    }
    lemma_lines_of_unlines(all);
    lemma_declaration_step(package, name, platform, home);
    assert(head =~= Seq::<Seq<char>>::empty().push(declaration));
    lemma_run_push(package, Seq::empty(), declaration, platform, home);
    Script::lemma_run_concat(package, head, dirs, platform, home);
    Script::lemma_run_concat(package, head + dirs, files, platform, home);
    let first = seq![PathManager::ensure_dir(PathManager::package_path(home, name))]
        + PathManager::path_actions(name, platform, home);
    assert(Seq::<ActionView>::empty() + first =~= first);
}

} // verus!
