//! Binary content as hexadecimal text, and the script that rebuilds a
//! directory tree.

use crate::action::text_of;
use crate::path::joined;
use crate::text::{
    chars_of, lemma_leading_run, matches_at, occurs_at, skip_start, string_of, strip_start,
    CharClass,
};
use vstd::prelude::*;
use vstd::slice::slice_subrange;
use vstd::string::StringExecFns;

verus! {

/// The lower-case hexadecimal digit for `n`, which is below 16.
pub open spec fn hex_digit(n: int) -> char {
    if n < 10 {
        ('0' as int + n) as char
    } else {
        ('a' as int + (n - 10)) as char
    }
}

/// Whether `c` is a hexadecimal digit, in either case.
pub open spec fn is_hex_digit(c: char) -> bool {
    ('0' <= c && c <= '9') || ('a' <= c && c <= 'f') || ('A' <= c && c <= 'F')
}

/// The number that the hexadecimal digit `c` stands for.
pub open spec fn hex_value(c: char) -> int {
    if '0' <= c && c <= '9' {
        c as int - '0' as int
    } else if 'a' <= c && c <= 'f' {
        c as int - 'a' as int + 10
    } else {
        c as int - 'A' as int + 10
    }
}

/// `bytes` in hexadecimal: two lower-case digits for each byte, the high
/// half first.
pub open spec fn encoded(bytes: Seq<u8>) -> Seq<char> {
    Seq::new(
        2 * bytes.len(),
        |i: int|
            hex_digit(
                if i % 2 == 0 {
                    bytes[i / 2] as int / 16
                } else {
                    bytes[i / 2] as int % 16
                },
            ),
    )
}

/// Whether `s` is hexadecimal text for some bytes: digits only, two for each
/// byte.
pub open spec fn is_hex(s: Seq<char>) -> bool {
    s.len() % 2 == 0 && forall|i: int| 0 <= i < s.len() ==> is_hex_digit(#[trigger] s[i])
}

/// The bytes that the digit pairs of `s` stand for.
pub open spec fn decoded(s: Seq<char>) -> Seq<u8> {
    Seq::new(s.len() / 2, |i: int| (16 * hex_value(s[2 * i]) + hex_value(s[2 * i + 1])) as u8)
}

/// The error for text that is not hexadecimal.
pub open spec fn decode_failure(s: Seq<char>) -> Seq<char> {
    "Could not decode hex code '"@ + s + "'"@
}

/// `hex_d_hex::lower_hex` writes two lower-case hexadecimal digits for each
/// byte, the high half first, and nothing else.
#[verifier::external_body]
fn lower_hex(bytes: &Vec<u8>) -> (s: String)
    ensures
        s@ == encoded(bytes@),
{
    *hex_d_hex::lower_hex(bytes)
}

/// `hex_d_hex::dhex` reads the text two digits at a time and gives the byte
/// of each pair, in either case of the letters; a last digit without a
/// partner is left out. It panics on a character that is no hexadecimal
/// digit, which the precondition excludes.
#[verifier::external_body]
fn dhex(hex: &str) -> (bytes: Vec<u8>)
    requires
        forall|i: int| 0 <= i < hex@.len() ==> is_hex_digit(#[trigger] hex@[i]),
    ensures
        bytes@ == decoded(hex@),
{
    *hex_d_hex::dhex(hex)
}

/// Tests whether `c` is a hexadecimal digit.
pub fn hex_digit_char(c: char) -> (b: bool)
    ensures
        b == is_hex_digit(c),
{
    ('0' <= c && c <= '9') || ('a' <= c && c <= 'f') || ('A' <= c && c <= 'F')
}

/// Tests whether `s` is hexadecimal text for some bytes.
pub fn hex_text(s: &str) -> (b: bool)
    ensures
        b == is_hex(s@),
{
    let chars = chars_of(s);
    if chars.len() % 2 != 0 {
        return false;
    }
    let mut i: usize = 0;
    while i < chars.len()
        invariant
            i <= chars.len(),
            chars@ == s@,
            forall|j: int| 0 <= j < i ==> is_hex_digit(#[trigger] s@[j]),
        decreases chars.len() - i,
    {
        if !hex_digit_char(chars[i]) {
            return false;
        }
        i += 1;
    }
    true
}

/// Writes `buf` as hexadecimal text. There is no input on which it fails.
pub fn encode(buf: Vec<u8>) -> (r: Result<String, String>)
    ensures
        r matches Ok(s) && s@ == encoded(buf@),
{
    Ok(lower_hex(&buf))
}

/// Reads hexadecimal text back into bytes. Text of odd length, and text
/// with a character that is no hexadecimal digit, is refused.
pub fn decode(string: String) -> (r: Result<Vec<u8>, String>)
    ensures
        match r {
            Ok(bytes) => is_hex(string@) && bytes@ == decoded(string@),
            Err(e) => !is_hex(string@) && e@ == decode_failure(string@),
        },
{
    if hex_text(string.as_str()) {
        Ok(dhex(string.as_str()))
    } else {
        let mut e = String::from_str("Could not decode hex code '");
        e.append(string.as_str());
        e.append("'");
        Err(e)
    }
}

/// A digit's value is the number it was written for.
pub proof fn lemma_hex_digit(n: int)
    requires
        0 <= n < 16,
    ensures
        is_hex_digit(hex_digit(n)),
        !crate::text::is_whitespace(hex_digit(n)),
        hex_value(hex_digit(n)) == n,
{
}

/// Encoding gives hexadecimal text, and decoding that text gives the bytes
/// back: `decode` undoes `encode` on every sequence of bytes.
pub proof fn lemma_decode_encode(bytes: Seq<u8>)
    ensures
        is_hex(encoded(bytes)),
        decoded(encoded(bytes)) == bytes,
{
    let s = encoded(bytes);
    assert forall|i: int| 0 <= i < s.len() implies is_hex_digit(#[trigger] s[i]) by {
        if i % 2 == 0 {
            lemma_hex_digit(bytes[i / 2] as int / 16);
        } else {
            lemma_hex_digit(bytes[i / 2] as int % 16);
        }
    }
    assert forall|k: int| 0 <= k < bytes.len() implies decoded(s)[k] == bytes[k] by {
        let b = bytes[k] as int;
        lemma_hex_digit(b / 16);
        lemma_hex_digit(b % 16);
        assert((2 * k) % 2 == 0 && (2 * k) / 2 == k);
        assert((2 * k + 1) % 2 == 1 && (2 * k + 1) / 2 == k);
        assert(s[2 * k] == hex_digit(b / 16));
        assert(s[2 * k + 1] == hex_digit(b % 16));
        assert(16 * (b / 16) + b % 16 == b);
    }
    assert(decoded(s) =~= bytes);
}

/// One entry of a directory tree: a directory, or a file with its bytes.
#[derive(Clone, Debug, PartialEq, Eq)]
pub struct Entry {
    /// The entry's own name, the last part of its path. There is none to
    /// give where the name is not valid Unicode.
    pub name: Option<String>,
    /// The path that leads to the entry, through the directory that is
    /// captured.
    pub path: String,
    /// The bytes of a file. A directory has none.
    pub contents: Option<Vec<u8>>,
}

/// An `Entry` as mathematical values.
#[verifier::ext_equal]
pub struct EntryView {
    pub name: Option<Seq<char>>,
    pub path: Seq<char>,
    pub contents: Option<Seq<u8>>,
}

impl View for Entry {
    type V = EntryView;

    open spec fn view(&self) -> EntryView {
        EntryView {
            name: text_of(self.name),
            path: self.path@,
            contents: match self.contents {
                Some(bytes) => Some(bytes@),
                None => None,
            },
        }
    }
}

/// The views of a sequence of entries.
pub open spec fn listing(entries: Seq<Entry>) -> Seq<EntryView> {
    Seq::new(entries.len(), |i: int| entries[i]@)
}

/// Whether an entry of the name `name` is hidden: the name starts with a
/// dot and is not the single dot that stands for a directory itself.
pub open spec fn hidden(name: Option<Seq<char>>) -> bool {
    match name {
        Some(n) => n.len() > 0 && n[0] == '.' && n != seq!['.'],
        None => false,
    }
}

/// Whether `path` lies at or beneath `root`: it starts with `root`, and
/// what follows `root` in it, if anything, is a new part of the path.
pub open spec fn beneath(root: Seq<char>, path: Seq<char>) -> bool {
    &&& occurs_at(path, root, 0)
    &&& (root.len() == path.len() || (root.len() > 0 && (root.last() == '/' || path[root.len() as int]
        == '/')))
}

/// The path by which a script names the entry `path` of the tree under
/// `root`: `path` without `root` and the separators after it at its front,
/// and a single dot for `root` itself. A path that does not lie at or
/// beneath `root` is left as it is.
pub open spec fn relative_to(root: Seq<char>, path: Seq<char>) -> Seq<char> {
    if beneath(root, path) {
        let rest = strip_start(path.skip(root.len() as int), CharClass::Just('/'));
        if rest.len() == 0 {
            "."@
        } else {
            rest
        }
    } else {
        path
    }
}

/// The entry `e` of the tree under `root`, under the path by which a script
/// names it.
pub open spec fn renamed(root: Seq<char>, e: EntryView) -> EntryView {
    EntryView { name: e.name, path: relative_to(root, e.path), contents: e.contents }
}

/// The listing `entries` of the tree under `root`, each entry under the
/// path by which a script names it.
pub open spec fn named(root: Seq<char>, entries: Seq<EntryView>) -> Seq<EntryView> {
    Seq::new(entries.len(), |i: int| renamed(root, entries[i]))
}

/// The instruction line of the command `word` with the argument `arg`.
pub open spec fn instruction(word: Seq<char>, arg: Seq<char>) -> Seq<char> {
    word + " "@ + arg
}

/// The text of the lines `lines`, each ended by a line feed.
pub open spec fn unlines(lines: Seq<Seq<char>>) -> Seq<char>
    decreases lines.len(),
{
    if lines.len() == 0 {
        Seq::empty()
    } else {
        lines[0] + "\n"@ + unlines(lines.drop_first())
    }
}

/// The `mkdir` lines of a listing: one for each directory that is not
/// hidden, in the listing's order.
pub open spec fn dir_lines(entries: Seq<EntryView>) -> Seq<Seq<char>>
    decreases entries.len(),
{
    if entries.len() == 0 {
        Seq::empty()
    } else {
        let e = entries.last();
        if e.contents is None && !hidden(e.name) {
            dir_lines(entries.drop_last()).push(instruction("mkdir"@, e.path))
        } else {
            dir_lines(entries.drop_last())
        }
    }
}

/// The `write-hex` lines of a listing: one for each file that is not
/// hidden, in the listing's order.
pub open spec fn file_lines(entries: Seq<EntryView>) -> Seq<Seq<char>>
    decreases entries.len(),
{
    if entries.len() == 0 {
        Seq::empty()
    } else {
        let e = entries.last();
        match e.contents {
            Some(bytes) if !hidden(e.name) => file_lines(entries.drop_last()).push(
                instruction("write-hex"@, e.path + " "@ + encoded(bytes)),
            ),
            _ => file_lines(entries.drop_last()),
        }
    }
}

/// The lines of the script that rebuilds the listing `entries` in the
/// package `name`: the package's declaration, then the directories, then
/// the files.
pub open spec fn script_lines(name: Seq<char>, entries: Seq<EntryView>) -> Seq<Seq<char>> {
    seq![instruction("package"@, name)] + dir_lines(entries) + file_lines(entries)
}

/// The name of the file that holds the script of the package `name`.
pub open spec fn script_file(name: Seq<char>) -> Seq<char> {
    name + ".rapt"@
}

/// A script and the name of the file to write it to.
#[derive(Clone, Debug, PartialEq, Eq)]
pub struct Capture {
    /// The file's name.
    pub file: String,
    /// The script.
    pub text: String,
}

/// Tests whether an entry of the name `name` is hidden.
pub fn is_hidden(name: Option<&str>) -> (b: bool)
    ensures
        b == hidden(
            match name {
                Some(n) => Some(n@),
                None => None,
            },
        ),
{
    match name {
        Some(n) => {
            let chars = chars_of(n);
            let b = chars.len() > 0 && chars[0] == '.' && chars.len() != 1;
            assert(chars@.len() == 1 && chars@[0] == '.' ==> chars@ =~= seq!['.']);
            b
        },
        None => false,
    }
}

/// Gives the path by which a script names the entry `path` of the tree
/// under `root`.
pub fn relative(root: &str, path: &str) -> (r: String)
    ensures
        r@ == relative_to(root@, path@),
{
    let base = chars_of(root);
    let full = chars_of(path);
    let n = base.len();
    if !matches_at(full.as_slice(), base.as_slice(), 0) {
        return String::from_str(path);
    }
    if n == full.len() || (n > 0 && (base[n - 1] == '/' || full[n] == '/')) {
        let rest = skip_start(slice_subrange(full.as_slice(), n, full.len()), CharClass::Just('/'));
        if rest.len() == 0 {
            String::from_str(".")
        } else {
            string_of(rest)
        }
    } else {
        String::from_str(path)
    }
}

/// Tests whether `entry` is left out of a script because it is hidden.
fn left_out(entry: &Entry) -> (b: bool)
    ensures
        b == hidden(entry@.name),
{
    match &entry.name {
        Some(n) => is_hidden(Some(n.as_str())),
        None => is_hidden(None),
    }
}

/// Adds the instruction line of `word` and `arg` to `text`.
fn push_instruction(text: &mut String, word: &str, arg: &str)
    ensures
        final(text)@ == old(text)@ + (instruction(word@, arg@) + "\n"@),
{
    let ghost before = text@;
    text.append(word);
    text.append(" ");
    text.append(arg);
    text.append("\n");
    assert(text@ =~= before + (instruction(word@, arg@) + "\n"@));
}

/// Writes the script that rebuilds the tree under `directory` in the
/// package `package_name`, and names the file that the script goes to.
/// `entries` lists the tree, each entry by the path that leads to it
/// through `directory`; the script names each entry by its path beneath
/// `directory`. Hidden entries are left out.
pub fn capture(package_name: &str, directory: &str, entries: &Vec<Entry>) -> (script: Capture)
    ensures
        script.file@ == script_file(package_name@),
        script.text@ == unlines(
            script_lines(package_name@, named(directory@, listing(entries@))),
        ),
{
    let ghost all = named(directory@, listing(entries@));
    let mut file = String::from_str(package_name);
    file.append(".rapt");
    let mut text = String::new();
    let ghost head = seq![instruction("package"@, package_name@)];
    push_instruction(&mut text, "package", package_name);
    proof {
        lemma_unlines_push(Seq::empty(), instruction("package"@, package_name@));
        assert(Seq::<Seq<char>>::empty().push(instruction("package"@, package_name@)) =~= head);
        assert(all.take(0) =~= Seq::<EntryView>::empty());
        assert(head + dir_lines(all.take(0)) =~= head);
    }
    let mut k: usize = 0;
    while k < entries.len()
        invariant
            k <= entries.len(),
            all == named(directory@, listing(entries@)),
            head == seq![instruction("package"@, package_name@)],
            text@ == unlines(head + dir_lines(all.take(k as int))),
        decreases entries.len() - k,
    {
        let entry = &entries[k];
        proof {
            assert(all.take(k + 1).drop_last() =~= all.take(k as int));
            assert(all.take(k + 1).last() == renamed(directory@, entry@));
        }
        if entry.contents.is_none() && !left_out(entry) {
            let path = relative(directory, entry.path.as_str());
            push_instruction(&mut text, "mkdir", path.as_str());
            proof {
                let line = instruction("mkdir"@, path@);
                lemma_unlines_push(head + dir_lines(all.take(k as int)), line);
                assert((head + dir_lines(all.take(k as int))).push(line) =~= head + dir_lines(
                    all.take(k + 1),
                ));
            }
        }
        k += 1;
    }
    let ghost dirs = head + dir_lines(all);
    proof {
        assert(all.take(k as int) =~= all);
        assert(all.take(0) =~= Seq::<EntryView>::empty());
        assert(dirs + file_lines(all.take(0)) =~= dirs);
    }
    let mut k: usize = 0;
    while k < entries.len()
        invariant
            k <= entries.len(),
            all == named(directory@, listing(entries@)),
            dirs == seq![instruction("package"@, package_name@)] + dir_lines(all),
            text@ == unlines(dirs + file_lines(all.take(k as int))),
        decreases entries.len() - k,
    {
        let entry = &entries[k];
        proof {
            assert(all.take(k + 1).drop_last() =~= all.take(k as int));
            assert(all.take(k + 1).last() == renamed(directory@, entry@));
        }
        match &entry.contents {
            Some(bytes) => {
                if !left_out(entry) {
                    let mut arg = relative(directory, entry.path.as_str());
                    arg.append(" ");
                    arg.append(lower_hex(bytes).as_str());
                    push_instruction(&mut text, "write-hex", arg.as_str());
                    proof {
                        let line = instruction(
                            "write-hex"@,
                            relative_to(directory@, entry@.path) + " "@ + encoded(bytes@),
                        );
                        lemma_unlines_push(dirs + file_lines(all.take(k as int)), line);
                        assert((dirs + file_lines(all.take(k as int))).push(line) =~= dirs
                            + file_lines(all.take(k + 1)));
                    }
                }
            },
            None => {},
        }
        k += 1;
    }
    proof {
        assert(all.take(k as int) =~= all);
    }
    Capture { file, text }
}

/// A line more at the end of the lines is a line more at the end of the
/// text.
pub proof fn lemma_unlines_push(lines: Seq<Seq<char>>, line: Seq<char>)
    ensures
        unlines(lines.push(line)) == unlines(lines) + (line + "\n"@),
    decreases lines.len(),
{
    if lines.len() == 0 {
        reveal_with_fuel(unlines, 2);
        assert(lines.push(line).drop_first() =~= Seq::<Seq<char>>::empty());
        assert(unlines(lines.push(line)) =~= unlines(lines) + (line + "\n"@));
    } else {
        lemma_unlines_push(lines.drop_first(), line);
        assert(lines.push(line).drop_first() =~= lines.drop_first().push(line));
        assert(unlines(lines.push(line)) =~= unlines(lines) + (line + "\n"@));
    }
}

/// A hidden entry adds nothing to a script: the script of a listing is the
/// script of the listing without its hidden entry `k`.
pub proof fn lemma_hidden_left_out(name: Seq<char>, entries: Seq<EntryView>, k: int)
    requires
        0 <= k < entries.len(),
        hidden(entries[k].name),
    ensures
        dir_lines(entries) == dir_lines(entries.remove(k)),
        file_lines(entries) == file_lines(entries.remove(k)),
        script_lines(name, entries) == script_lines(name, entries.remove(k)),
    decreases entries.len(),
{
    let rest = entries.remove(k);
    if k == entries.len() - 1 {
        assert(entries.last() == entries[k]);
        assert(rest =~= entries.drop_last());
    } else {
        let before = entries.drop_last();
        assert(before[k] == entries[k]);
        lemma_hidden_left_out(name, before, k);
        assert(rest.drop_last() =~= before.remove(k));
        assert(rest.last() == entries.last());
    }
}

/// An entry of a tree is rebuilt inside the directory that the tree is
/// rebuilt in: the path that names an entry at or beneath the root is not
/// empty and not absolute, so that joined to a directory it extends that
/// directory.
pub proof fn lemma_relative_inside(base: Seq<char>, root: Seq<char>, path: Seq<char>)
    requires
        beneath(root, path),
    ensures
        relative_to(root, path).len() > 0,
        relative_to(root, path)[0] != '/',
        occurs_at(joined(base, relative_to(root, path)), base, 0),
{
    reveal_strlit(".");
    reveal_strlit("/");
    let rest = path.skip(root.len() as int);
    lemma_leading_run(rest, CharClass::Just('/'));
    let r = relative_to(root, path);
    if base.len() > 0 && base.last() != '/' {
        assert((base + "/"@ + r).subrange(0, base.len() as int) =~= base);
    } else {
        assert((base + r).subrange(0, base.len() as int) =~= base);
    }
}

} // verus!
