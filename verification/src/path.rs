//! Where packages live: the install directory under the user's home, one
//! directory in it for each package, and the entry that puts a directory on
//! the user's `PATH`.

use crate::action::{text_of, views, Action, ActionView};
use crate::platform::Platform;
use crate::text::{
    chars_of, contains, first_in, lemma_first_in, lemma_first_in_run, lines, lines_of, occurs_at,
    occurs_in, rows, without_return, CharClass,
};
use std::path::PathBuf;
use vstd::prelude::*;
use vstd::string::StringExecFns;

verus! {

/// `std::path::PathBuf`, carried through as an opaque value.
#[verifier::external_type_specification]
#[verifier::external_body]
pub struct ExPathBuf(PathBuf);

/// The text of a path, where the path is valid Unicode.
pub uninterp spec fn path_text(p: PathBuf) -> Option<Seq<char>>;

/// `PathBuf::into_os_string` followed by `OsString::into_string` gives the
/// path's text exactly when the path is valid Unicode.
#[verifier::external_body]
fn into_text(p: PathBuf) -> (r: Option<String>)
    ensures
        text_of(r) == path_text(p),
{
    p.into_os_string().into_string().ok()
}

/// `dirs::home_dir` looks the user's home directory up: in `HOME`, in the
/// system's user records, or in the user's profile on Windows. What it
/// finds depends on the machine, so nothing is claimed of it.
#[verifier::external_body]
fn lookup_home() -> Option<PathBuf> {
    dirs::home_dir()
}

/// `base` extended by `child`. An absolute `child` stands for itself;
/// otherwise the two are put together, with one `/` between them where
/// `base` does not end in one. The separator is `/` on every platform.
pub open spec fn joined(base: Seq<char>, child: Seq<char>) -> Seq<char> {
    if child.len() > 0 && child[0] == '/' {
        child
    } else if base.len() > 0 && base.last() != '/' {
        base + "/"@ + child
    } else {
        base + child
    }
}

/// Extends the path `base` by `child`.
pub fn join(base: &str, child: &str) -> (r: String)
    ensures
        r@ == joined(base@, child@),
{
    let b = chars_of(base);
    let c = chars_of(child);
    if c.len() > 0 && c[0] == '/' {
        String::from_str(child)
    } else if b.len() > 0 && b[b.len() - 1] != '/' {
        let mut r = String::from_str(base);
        r.append("/");
        r.append(child);
        r
    } else {
        let mut r = String::from_str(base);
        r.append(child);
        r
    }
}

/// The text of `p`, or the empty text where `p` is not valid Unicode.
pub fn path_to_string(p: PathBuf) -> (s: String)
    ensures
        s@ == match path_text(p) {
            Some(t) => t,
            None => Seq::<char>::empty(),
        },
{
    match into_text(p) {
        Some(s) => s,
        None => String::new(),
    }
}

/// Path computations. There is no state: the type only groups them.
pub struct PathManager {}

impl PathManager {
    /// The home directory to work with when the lookup found `found`: the
    /// root directory stands in for a home that was not found.
    pub open spec fn home_text(found: Option<PathBuf>) -> Seq<char> {
        match found {
            Some(p) => match path_text(p) {
                Some(t) => t,
                None => Seq::<char>::empty(),
            },
            None => "/"@,
        }
    }

    /// The directory under which every package is installed.
    pub open spec fn install_path(home: Seq<char>) -> Seq<char> {
        joined(home, ".rapture"@)
    }

    /// The directory of the package `name`.
    pub open spec fn package_path(home: Seq<char>, name: Seq<char>) -> Seq<char> {
        joined(Self::install_path(home), name)
    }

    /// The shell startup file that carries the `PATH` entries.
    pub open spec fn profile_path(home: Seq<char>) -> Seq<char> {
        joined(home, ".bashrc"@)
    }

    /// The startup file line that puts `dir` on the `PATH`.
    pub open spec fn export_line(dir: Seq<char>) -> Seq<char> {
        "export PATH=\"$PATH:"@ + dir + "\""@
    }

    /// The warning printed before `dir` is put on the `PATH` on Windows.
    pub open spec fn windows_warning(dir: Seq<char>) -> Seq<char> {
        "WARNING: modifying the path on windows is experimental. If this install does not seem to work, add '"@
            + dir + "' to your path environment variable."@
    }

    /// The action that makes sure the directory `path` is there: it creates
    /// the directory and its missing parents, and reports a creation that
    /// fails with an error that names the path.
    pub open spec fn ensure_dir(path: Seq<char>) -> ActionView {
        ActionView::CreateDir { path, failure: "Failed to create directory "@ + path }
    }

    /// What puts the directory of `name` on the `PATH`. On Windows a `set`
    /// command, after a warning; elsewhere a line in the startup file.
    pub open spec fn path_actions(name: Seq<char>, platform: Platform, home: Seq<char>) -> Seq<
        ActionView,
    > {
        let dir = Self::package_path(home, name);
        match platform {
            Platform::Windows => seq![
                ActionView::Print { text: Self::windows_warning(dir) },
                ActionView::Run {
                    invocation: Platform::Windows.invocation("set PATH=%PATH%;"@ + dir),
                },
            ],
            _ => seq![
                ActionView::ExportPath {
                    profile: Self::profile_path(home),
                    line: Self::export_line(dir),
                    open_failure: "Failed to add "@ + name + " to PATH"@,
                    write_failure: "Failed to append to file "@ + Self::profile_path(home),
                },
            ],
        }
    }

    /// Whether some line of `profile` contains `line`.
    pub open spec fn listed(profile: Seq<char>, line: Seq<char>) -> bool {
        exists|k: int| 0 <= k < lines_of(profile).len() && occurs_in(#[trigger] lines_of(profile)[k], line)
    }

    /// What is to be appended to `profile` so that it lists `line`: the
    /// line and a line feed, or nothing where the profile lists the line
    /// already.
    pub open spec fn missing(profile: Seq<char>, line: Seq<char>) -> Option<Seq<char>> {
        if Self::listed(profile, line) {
            None
        } else {
            Some(line + "\n"@)
        }
    }

    /// The home directory to work with when the lookup found `found`.
    pub fn home_of(found: Option<PathBuf>) -> (home: String)
        ensures
            home@ == Self::home_text(found),
    {
        match found {
            Some(dir) => path_to_string(dir),
            None => String::from_str("/"),
        }
    }

    /// The user's home directory, or the root directory where none is found.
    pub fn home_dir() -> (home: String)
        ensures
            exists|found: Option<PathBuf>| home@ == Self::home_text(found),
    {
        Self::home_of(lookup_home())
    }

    /// The action that makes sure the directory `path` is there.
    pub fn create_dir(path: String) -> (action: Action)
        ensures
            action@ == Self::ensure_dir(path@),
    {
        let mut failure = String::from_str("Failed to create directory ");
        failure.append(path.as_str());
        Action::CreateDir { path, failure }
    }

    /// The directory under which every package is installed.
    pub fn install_dir(home: &str) -> (dir: String)
        ensures
            dir@ == Self::install_path(home@),
    {
        join(home, ".rapture")
    }

    /// The action that makes sure the install directory exists.
    pub fn make_install_dir(home: &str) -> (action: Action)
        ensures
            action@ == Self::ensure_dir(Self::install_path(home@)),
    {
        Self::create_dir(Self::install_dir(home))
    }

    /// The directory of the package `name`.
    pub fn package_dir(home: &str, name: &str) -> (dir: String)
        ensures
            dir@ == Self::package_path(home@, name@),
    {
        let root = Self::install_dir(home);
        join(root.as_str(), name)
    }

    /// The action that makes sure the directory of the package `name` exists.
    pub fn make_package_dir(home: &str, name: &str) -> (action: Action)
        ensures
            action@ == Self::ensure_dir(Self::package_path(home@, name@)),
    {
        Self::create_dir(Self::package_dir(home, name))
    }

    /// The actions that put the directory of `name` on the user's `PATH`.
    pub fn add_to_path(name: &str, platform: Platform, home: &str) -> (actions: Vec<Action>)
        ensures
            views(actions@) == Self::path_actions(name@, platform, home@),
    {
        let dir = Self::package_dir(home, name);
        let mut actions: Vec<Action> = Vec::new();
        match platform {
            Platform::Windows => {
                let mut warning = String::from_str(
                    "WARNING: modifying the path on windows is experimental. If this install does not seem to work, add '",
                );
                warning.append(dir.as_str());
                warning.append("' to your path environment variable.");
                let mut set = String::from_str("set PATH=%PATH%;");
                set.append(dir.as_str());
                actions.push(Action::Print { text: warning });
                actions.push(Action::Run { invocation: Platform::Windows.command(set.as_str()) });
            },
            _ => {
                let profile = join(home, ".bashrc");
                let mut line = String::from_str("export PATH=\"$PATH:");
                line.append(dir.as_str());
                line.append("\"");
                let mut open_failure = String::from_str("Failed to add ");
                open_failure.append(name);
                open_failure.append(" to PATH");
                let mut write_failure = String::from_str("Failed to append to file ");
                write_failure.append(profile.as_str());
                actions.push(Action::ExportPath { profile, line, open_failure, write_failure });
            },
        }
        actions
    }

    /// Tests whether some line of `profile` contains `line`, in which case
    /// the line is not appended again.
    pub fn is_listed(profile: &str, line: &str) -> (b: bool)
        ensures
            b == Self::listed(profile@, line@),
    {
        let text = chars_of(profile);
        let needle = chars_of(line);
        let all = lines(text.as_slice());
        let mut k: usize = 0;
        while k < all.len()
            invariant
                k <= all.len(),
                rows(all@) == lines_of(profile@),
                needle@ == line@,
                forall|j: int| 0 <= j < k ==> !occurs_in(#[trigger] lines_of(profile@)[j], line@),
            decreases all.len() - k,
        {
            assert(rows(all@)[k as int] == all@[k as int]@);
            if contains(all[k].as_slice(), needle.as_slice()) {
                return true;
            }
            k += 1;
        }
        false
    }

    /// Gives what is to be appended to `profile` so that it lists `line`.
    pub fn addition(profile: &str, line: &str) -> (text: Option<String>)
        ensures
            text_of(text) == Self::missing(profile@, line@),
    {
        if Self::is_listed(profile, line) {
            None
        } else {
            let mut text = String::from_str(line);
            text.append("\n");
            Some(text)
        }
    }

    /// A profile that ends in `line` and a line feed lists `line`.
    pub proof fn lemma_listed_at_end(profile: Seq<char>, line: Seq<char>)
        requires
            forall|i: int| 0 <= i < line.len() ==> #[trigger] line[i] != '\n',
            line.len() > 0 ==> line.last() != '\r',
        ensures
            Self::listed(profile + (line + "\n"@), line),
        decreases profile.len(),
    {
        reveal_strlit("\n");
        let newline = CharClass::Just('\n');
        let s = profile + (line + "\n"@);
        let n = first_in(profile, newline);
        lemma_first_in_run(profile, newline);
        if n < profile.len() {
            assert forall|j: int| 0 <= j < n implies !newline.has(#[trigger] s[j]) by {
                assert(s[j] == profile[j]);
            }
            assert(s[n as int] == profile[n as int]);
            lemma_first_in(s, newline, n);
            let rest = profile.skip(n as int + 1);
            assert(s.skip(n as int + 1) =~= rest + (line + "\n"@));
            Self::lemma_listed_at_end(rest, line);
            let k = choose|k: int|
                0 <= k < lines_of(rest + (line + "\n"@)).len() && occurs_in(
                    #[trigger] lines_of(rest + (line + "\n"@))[k],
                    line,
                );
            assert(lines_of(s)[k + 1] == lines_of(rest + (line + "\n"@))[k]);
        } else {
            let m = profile.len() + line.len();
            assert forall|j: int| 0 <= j < m implies !newline.has(#[trigger] s[j]) by {
                if j < profile.len() {
                    assert(s[j] == profile[j]);
                } else {
                    assert(s[j] == line[j - profile.len()]);
                }
            }
            lemma_first_in(s, newline, m);
            let first = without_return(s.take(m as int));
            assert(lines_of(s)[0] == first);
            if line.len() > 0 {
                assert(s.take(m as int).last() == line.last());
                assert(first.subrange(profile.len() as int, m as int) =~= line);
                assert(occurs_at(first, line, profile.len() as int));
            } else {
                assert(first.subrange(0, 0) =~= line);
                assert(occurs_at(first, line, 0));
            }
        }
    }

    /// Adding to the `PATH` twice is adding once: once what was missing
    /// has been appended to a profile, nothing is missing.
    pub proof fn lemma_added_once(profile: Seq<char>, line: Seq<char>)
        requires
            forall|i: int| 0 <= i < line.len() ==> #[trigger] line[i] != '\n',
            line.len() > 0 ==> line.last() != '\r',
        ensures
            match Self::missing(profile, line) {
                Some(text) => Self::missing(profile + text, line) is None,
                None => true,
            },
    {
        Self::lemma_listed_at_end(profile, line);
    }
}

} // verus!
