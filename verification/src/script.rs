//! The script interpreter. A script is a text of one instruction per line;
//! an instruction is a command word, whitespace, and an argument that runs
//! to the end of the line. The interpreter reads the lines in order and
//! turns each into the actions that a host is to perform, keeping count of
//! the package that the script has declared. It stops at the first line
//! that is in error.
//!
//! A line without two parts is no instruction and is passed over in
//! silence: an empty line, a line of whitespace, and a line of a single
//! word. So there are no commands without an argument; `mkdir` alone on a
//! line does nothing.

use crate::action::{text_of, views, Action, ActionView, Invocation, InvocationView};
use crate::backup;
use crate::capture::{decode, decode_failure, decoded, is_hex};
use crate::frontend::{clone_invocation, gitclone};
use crate::path::{join, joined, PathManager};
use crate::platform::Platform;
use crate::text::{
    chars_of, find_first, first_in, lemma_lines_closed, lemma_lines_concat, lemma_lines_first,
    lines, lines_of, rows, same_text, skip_end, skip_start, string_of, strip_end, strip_start,
    trim, trimmed, without_return, CharClass,
};
use vstd::prelude::*;
use vstd::slice::slice_subrange;
use vstd::string::StringExecFns;

verus! {

/// The two parts of an instruction line: the text before its first blank
/// and the text from that blank on, each without the whitespace around it.
/// A line has no parts where it has no blank, or none before its last
/// character.
pub open spec fn split_line(s: Seq<char>) -> Option<(Seq<char>, Seq<char>)> {
    let i = first_in(s, CharClass::Blank);
    if i + 1 < s.len() {
        Some((trimmed(s.take(i as int)), trimmed(s.skip(i as int))))
    } else {
        None
    }
}

/// `s` without the double quotes and then the single quotes at its start,
/// and without the double quotes and then the single quotes at its end.
pub open spec fn unquoted(s: Seq<char>) -> Seq<char> {
    strip_end(
        strip_end(
            strip_start(strip_start(s, CharClass::Just('"')), CharClass::Just('\'')),
            CharClass::Just('"'),
        ),
        CharClass::Just('\''),
    )
}

/// The path and the hexadecimal text in the argument of `write-hex`. An
/// argument of one word is a path with no content to write.
pub open spec fn hex_argument(args: Seq<char>) -> (Seq<char>, Seq<char>) {
    match split_line(args) {
        Some(parts) => parts,
        None => (args, Seq::<char>::empty()),
    }
}

/// The error for a command that needs a package, in a script that has
/// declared none. `attempt` says what the command set out to do.
pub open spec fn undeclared(attempt: Seq<char>) -> Seq<char> {
    "Tried to "@ + attempt
        + " without declaring the install script as a package installer via the `package PACKAGE_NAME` rapture command."@
}

/// The error for a line whose first word is no command.
pub open spec fn unrecognized(word: Seq<char>, args: Seq<char>) -> Seq<char> {
    "Unrecognized command '"@ + word + " "@ + args + "'"@
}

/// The action that writes `bytes` to the file `path`.
pub open spec fn write_file(path: Seq<char>, bytes: Seq<u8>) -> ActionView {
    ActionView::WriteFile {
        path,
        bytes,
        open_failure: "Could not open file '"@ + path + "'"@,
        write_failure: "Could not write decoded bytes to file '"@ + path + "'"@,
    }
}

/// The commands of the script language.
#[derive(Clone, Copy, PartialEq, Eq, Structural, Debug)]
pub enum Command {
    /// `package`: declare the package that the lines after it work on.
    Package,
    /// `git-clone`: clone a repository into the package.
    GitClone,
    /// `rapt-install`: fetch another script and run it.
    RaptInstall,
    /// `backend-install`: install with the system's package manager.
    BackendInstall,
    /// `write-hex`: write a file of the package.
    WriteHex,
    /// `mkdir`: create a directory of the package.
    Mkdir,
    /// `echo`: print the argument.
    Echo,
    /// `add-path`: put a directory of the package on the `PATH`.
    AddPath,
    /// `#`: a comment.
    Comment,
    /// `WINDOWS`, `MACOS`, `UBUNTU`, `LINUX`, `UNKNOWN`: run a shell command
    /// on one platform only.
    Guard(Platform),
    /// `*`: run a shell command on every platform.
    Always,
    /// Any other word.
    Unrecognized,
}

impl Command {
    /// The command that `word` names. The match is exact.
    pub open spec fn of(word: Seq<char>) -> Command {
        if word == "package"@ {
            Command::Package
        } else if word == "git-clone"@ {
            Command::GitClone
        } else if word == "rapt-install"@ {
            Command::RaptInstall
        } else if word == "backend-install"@ {
            Command::BackendInstall
        } else if word == "write-hex"@ {
            Command::WriteHex
        } else if word == "mkdir"@ {
            Command::Mkdir
        } else if word == "echo"@ {
            Command::Echo
        } else if word == "add-path"@ {
            Command::AddPath
        } else if word == "#"@ {
            Command::Comment
        } else if word == "WINDOWS"@ {
            Command::Guard(Platform::Windows)
        } else if word == "MACOS"@ {
            Command::Guard(Platform::MacOS)
        } else if word == "UBUNTU"@ || word == "LINUX"@ {
            Command::Guard(Platform::Ubuntu)
        } else if word == "UNKNOWN"@ {
            Command::Guard(Platform::Unknown)
        } else if word == "*"@ {
            Command::Always
        } else {
            Command::Unrecognized
        }
    }

    /// Finds the command that `word` names.
    pub fn parse(word: &[char]) -> (c: Command)
        ensures
            c == Command::of(word@),
    {
        if is_word(word, "package") {
            Command::Package
        } else if is_word(word, "git-clone") {
            Command::GitClone
        } else if is_word(word, "rapt-install") {
            Command::RaptInstall
        } else if is_word(word, "backend-install") {
            Command::BackendInstall
        } else if is_word(word, "write-hex") {
            Command::WriteHex
        } else if is_word(word, "mkdir") {
            Command::Mkdir
        } else if is_word(word, "echo") {
            Command::Echo
        } else if is_word(word, "add-path") {
            Command::AddPath
        } else if is_word(word, "#") {
            Command::Comment
        } else if is_word(word, "WINDOWS") {
            Command::Guard(Platform::Windows)
        } else if is_word(word, "MACOS") {
            Command::Guard(Platform::MacOS)
        } else if is_word(word, "UBUNTU") || is_word(word, "LINUX") {
            Command::Guard(Platform::Ubuntu)
        } else if is_word(word, "UNKNOWN") {
            Command::Guard(Platform::Unknown)
        } else if is_word(word, "*") {
            Command::Always
        } else {
            Command::Unrecognized
        }
    }
}

/// Tests whether `word` is the text `keyword`.
fn is_word(word: &[char], keyword: &str) -> (b: bool)
    ensures
        b == (word@ == keyword@),
{
    let k = chars_of(keyword);
    same_text(word, k.as_slice())
}

/// Splits a line into its two parts.
pub fn split(s: &[char]) -> (r: Option<(&[char], &[char])>)
    ensures
        match r {
            Some((head, tail)) => split_line(s@) == Some((head@, tail@)),
            None => split_line(s@) is None,
        },
{
    let i = find_first(s, CharClass::Blank);
    if s.len() < 2 || i >= s.len() - 1 {
        return None;
    }
    let before = slice_subrange(s, 0, i);
    let after = slice_subrange(s, i, s.len());
    assert(before@ =~= s@.take(i as int));
    assert(after@ =~= s@.skip(i as int));
    Some((trim(before), trim(after)))
}

/// Splits `s` at its first blank into two parts, each without the
/// whitespace around it. It fails where `s` has no blank, or none before
/// its last character.
pub fn split_first_space(s: String) -> (r: Result<(String, String), ()>)
    ensures
        match r {
            Ok((head, tail)) => split_line(s@) == Some((head@, tail@)),
            Err(_) => split_line(s@) is None,
        },
{
    let chars = chars_of(s.as_str());
    match split(chars.as_slice()) {
        Some((head, tail)) => Ok((string_of(head), string_of(tail))),
        None => Err(()),
    }
}

/// What one line comes to: the package that is declared after it, and the
/// actions that it asks for or the error that ends the script.
#[verifier::ext_equal]
pub struct Outcome {
    pub package: Option<Seq<char>>,
    pub effects: Result<Seq<ActionView>, Seq<char>>,
}

/// What a script comes to: the package that is declared at its end, the
/// actions of its lines in order, up to the first line in error, and that
/// line's error.
#[verifier::ext_equal]
pub struct Trace {
    pub package: Option<Seq<char>>,
    pub actions: Seq<ActionView>,
    pub failure: Option<Seq<char>>,
}

/// The actions of a script, and the error that ended it if one did. A host
/// performs the actions in order, stops at the first that fails, and
/// reports `failure` after the last.
#[derive(Clone, Debug, PartialEq, Eq)]
pub struct Plan {
    pub actions: Vec<Action>,
    pub failure: Option<String>,
}

/// The effects of a line as mathematical values.
pub open spec fn effects_of(r: Result<Vec<Action>, String>) -> Result<Seq<ActionView>, Seq<char>> {
    match r {
        Ok(actions) => Ok(views(actions@)),
        Err(e) => Err(e@),
    }
}

/// An install script, and the package that it has declared so far.
#[derive(Clone)]
pub struct Script {
    /// The package that the script works on, once a line has declared one.
    package_name: Option<String>,
    /// The text of the script.
    script: String,
}

impl Script {
    /// The package that the script has declared, if it has.
    pub closed spec fn package(&self) -> Option<Seq<char>> {
        text_of(self.package_name)
    }

    /// The text of the script.
    pub closed spec fn text(&self) -> Seq<char> {
        self.script@
    }

    /// The invocation that runs `command` for a script that has declared
    /// `package`: in the package's directory, or where the host stands if
    /// there is no package.
    pub open spec fn invocation(
        package: Option<Seq<char>>,
        command: Seq<char>,
        platform: Platform,
        home: Seq<char>,
    ) -> InvocationView {
        match package {
            Some(name) => platform.invocation(
                "cd "@ + PathManager::package_path(home, name) + "; "@ + command + ";"@,
            ),
            None => platform.invocation(command),
        }
    }

    /// A line that asks for `actions`.
    pub open spec fn asks(package: Option<Seq<char>>, actions: Seq<ActionView>) -> Outcome {
        Outcome { package, effects: Ok(actions) }
    }

    /// A line that ends the script with the error `message`.
    pub open spec fn fails(package: Option<Seq<char>>, message: Seq<char>) -> Outcome {
        Outcome { package, effects: Err(message) }
    }

    /// What the line `line` comes to in a script that has declared
    /// `package`, on a host of family `platform` whose user lives in `home`.
    /// A line without two parts asks for nothing. Any other line is read by
    /// its command word: it asks for actions, or it ends the script with an
    /// error where its word is no command, where it works on a package and
    /// none is declared, or where its hexadecimal text is malformed.
    pub open spec fn step_of(
        package: Option<Seq<char>>,
        line: Seq<char>,
        platform: Platform,
        home: Seq<char>,
    ) -> Outcome {
        match split_line(line) {
            None => Self::asks(package, Seq::empty()),
            Some((word, args)) => if word.len() == 0 && args.len() == 0 {
                Self::asks(package, Seq::empty())
            } else {
                match Command::of(word) {
                    Command::Package => Self::asks(
                        Some(args),
                        seq![PathManager::ensure_dir(PathManager::package_path(home, args))]
                            + PathManager::path_actions(args, platform, home),
                    ),
                    Command::GitClone => match package {
                        Some(name) => Self::asks(
                            package,
                            seq![
                                ActionView::Run {
                                    invocation: clone_invocation(
                                        name,
                                        unquoted(args),
                                        platform,
                                        home,
                                    ),
                                },
                            ],
                        ),
                        None => Self::fails(
                            package,
                            undeclared("clone repository into package install directory"@),
                        ),
                    },
                    Command::RaptInstall => Self::asks(
                        package,
                        seq![ActionView::Install { url: args }],
                    ),
                    Command::BackendInstall => Self::asks(
                        package,
                        seq![ActionView::Run { invocation: backup::installation(platform, args) }],
                    ),
                    Command::WriteHex => match package {
                        Some(name) => if args.len() == 0 {
                            Self::asks(package, Seq::empty())
                        } else if is_hex(hex_argument(args).1) {
                            Self::asks(
                                package,
                                seq![
                                    write_file(
                                        joined(
                                            PathManager::package_path(home, name),
                                            hex_argument(args).0,
                                        ),
                                        decoded(hex_argument(args).1),
                                    ),
                                ],
                            )
                        } else {
                            Self::fails(package, decode_failure(hex_argument(args).1))
                        },
                        None => Self::fails(package, undeclared("write hex to a file"@)),
                    },
                    Command::Mkdir => match package {
                        Some(name) => Self::asks(
                            package,
                            seq![
                                PathManager::ensure_dir(
                                    joined(PathManager::package_path(home, name), args),
                                ),
                            ],
                        ),
                        None => Self::fails(package, undeclared("make directory"@)),
                    },
                    Command::Echo => Self::asks(package, seq![ActionView::Print { text: args }]),
                    Command::AddPath => match package {
                        Some(name) => Self::asks(
                            package,
                            PathManager::path_actions(
                                joined(PathManager::package_path(home, name), args),
                                platform,
                                home,
                            ),
                        ),
                        None => Self::fails(package, undeclared("add to path"@)),
                    },
                    Command::Comment => Self::asks(package, Seq::empty()),
                    Command::Guard(guarded) => if guarded == platform {
                        Self::asks(
                            package,
                            seq![
                                ActionView::Run {
                                    invocation: Self::invocation(package, args, platform, home),
                                },
                            ],
                        )
                    } else {
                        Self::asks(package, Seq::empty())
                    },
                    Command::Always => Self::asks(
                        package,
                        seq![
                            ActionView::Run {
                                invocation: Self::invocation(package, args, platform, home),
                            },
                        ],
                    ),
                    Command::Unrecognized => Self::fails(package, unrecognized(word, args)),
                }
            },
        }
    }

    /// What the lines `lines` come to, read in order from a script that has
    /// declared `package`. Reading stops at the first line in error: the
    /// actions of the lines before it stand, and nothing of the lines after
    /// it.
    pub open spec fn run_of(
        package: Option<Seq<char>>,
        lines: Seq<Seq<char>>,
        platform: Platform,
        home: Seq<char>,
    ) -> Trace
        decreases lines.len(),
    {
        if lines.len() == 0 {
            Trace { package, actions: Seq::empty(), failure: None }
        } else {
            let first = Self::step_of(package, lines[0], platform, home);
            match first.effects {
                Err(e) => Trace { package, actions: Seq::empty(), failure: Some(e) },
                Ok(actions) => {
                    let rest = Self::run_of(first.package, lines.drop_first(), platform, home);
                    Trace {
                        package: rest.package,
                        actions: actions + rest.actions,
                        failure: rest.failure,
                    }
                },
            }
        }
    }

    /// The trace `rest` behind the actions `done`.
    pub open spec fn after(done: Seq<ActionView>, rest: Trace) -> Trace {
        Trace { package: rest.package, actions: done + rest.actions, failure: rest.failure }
    }

    /// A script with the text `script`, which has declared no package yet.
    pub fn new(script: &str) -> (s: Script)
        ensures
            s.text() == script@,
            s.package() is None,
    {
        Script { package_name: None, script: script.to_owned() }
    }

    /// The text of the script.
    pub fn to_string(&self) -> (s: String)
        ensures
            s@ == self.text(),
    {
        self.script.clone()
    }

    /// Describes how to run the shell command `cmd` for this script: in the
    /// directory of its package, or where the host stands if it has declared
    /// none.
    pub fn command(&self, cmd: &str, platform: Platform, home: &str) -> (inv: Invocation)
        ensures
            inv@ == Self::invocation(self.package(), cmd@, platform, home@),
    {
        match &self.package_name {
            Some(name) => {
                let dir = PathManager::package_dir(home, name.as_str());
                let mut line = String::from_str("cd ");
                line.append(dir.as_str());
                line.append("; ");
                line.append(cmd);
                line.append(";");
                platform.command(line.as_str())
            },
            None => platform.command(cmd),
        }
    }

    /// Reads one line: gives the actions that it asks for, or the error that
    /// ends the script, and takes note of a package that it declares.
    pub fn step(&mut self, line: &str, platform: Platform, home: &str) -> (r: Result<
        Vec<Action>,
        String,
    >)
        ensures
            final(self).text() == old(self).text(),
            (Outcome { package: final(self).package(), effects: effects_of(r) }) == Self::step_of(
                old(self).package(),
                line@,
                platform,
                home@,
            ),
    {
        let chars = chars_of(line);
        self.interpret(chars.as_slice(), platform, home)
    }

    /// `step` on a line that is held as characters.
    fn interpret(&mut self, line: &[char], platform: Platform, home: &str) -> (r: Result<
        Vec<Action>,
        String,
    >)
        ensures
            final(self).text() == old(self).text(),
            (Outcome { package: final(self).package(), effects: effects_of(r) }) == Self::step_of(
                old(self).package(),
                line@,
                platform,
                home@,
            ),
    {
        let mut actions: Vec<Action> = Vec::new();
        assert(views(actions@) =~= Seq::<ActionView>::empty());
        let (word, rest) = match split(line) {
            Some(parts) => parts,
            None => {
                return Ok(actions);
            },
        };
        if word.len() == 0 && rest.len() == 0 {
            return Ok(actions);
        }
        let args = string_of(rest);
        match Command::parse(word) {
            Command::Package => {
                actions.push(PathManager::make_package_dir(home, args.as_str()));
                let mut more = PathManager::add_to_path(args.as_str(), platform, home);
                let ghost asked = views(more@);
                actions.append(&mut more);
                assert(views(actions@) =~= seq![
                    PathManager::ensure_dir(PathManager::package_path(home@, args@)),
                ] + asked);
                self.package_name = Some(args);
                Ok(actions)
            },
            Command::GitClone => match &self.package_name {
                Some(name) => {
                    let url = string_of(
                        skip_end(
                            skip_end(
                                skip_start(
                                    skip_start(rest, CharClass::Just('"')),
                                    CharClass::Just('\''),
                                ),
                                CharClass::Just('"'),
                            ),
                            CharClass::Just('\''),
                        ),
                    );
                    let invocation = gitclone(name.clone(), url, platform, home);
                    actions.push(Action::Run { invocation });
                    assert(views(actions@) =~= seq![
                        ActionView::Run {
                            invocation: clone_invocation(name@, unquoted(args@), platform, home@),
                        },
                    ]);
                    Ok(actions)
                },
                None => Err(undeclared_error("clone repository into package install directory")),
            },
            Command::RaptInstall => {
                actions.push(Action::Install { url: args });
                assert(views(actions@) =~= seq![ActionView::Install { url: args@ }]);
                Ok(actions)
            },
            Command::BackendInstall => {
                let ghost name = args@;
                let invocation = backup::install(args, platform);
                actions.push(Action::Run { invocation });
                assert(views(actions@) =~= seq![
                    ActionView::Run { invocation: backup::installation(platform, name) },
                ]);
                Ok(actions)
            },
            Command::WriteHex => match &self.package_name {
                Some(name) => {
                    if rest.len() == 0 {
                        return Ok(actions);
                    }
                    let (target, hex) = match split(rest) {
                        Some((target, hex)) => (string_of(target), string_of(hex)),
                        None => (args, String::new()),
                    };
                    let ghost digits = hex@;
                    match decode(hex) {
                        Ok(bytes) => {
                            let dir = PathManager::package_dir(home, name.as_str());
                            let path = join(dir.as_str(), target.as_str());
                            let mut open_failure = String::from_str("Could not open file '");
                            open_failure.append(path.as_str());
                            open_failure.append("'");
                            let mut write_failure = String::from_str(
                                "Could not write decoded bytes to file '",
                            );
                            write_failure.append(path.as_str());
                            write_failure.append("'");
                            actions.push(
                                Action::WriteFile { path, bytes, open_failure, write_failure },
                            );
                            assert(views(actions@) =~= seq![
                                write_file(
                                    joined(PathManager::package_path(home@, name@), target@),
                                    decoded(digits),
                                ),
                            ]);
                            Ok(actions)
                        },
                        Err(e) => Err(e),
                    }
                },
                None => Err(undeclared_error("write hex to a file")),
            },
            Command::Mkdir => match &self.package_name {
                Some(name) => {
                    let dir = PathManager::package_dir(home, name.as_str());
                    let path = join(dir.as_str(), args.as_str());
                    actions.push(PathManager::create_dir(path));
                    assert(views(actions@) =~= seq![
                        PathManager::ensure_dir(
                            joined(PathManager::package_path(home@, name@), args@),
                        ),
                    ]);
                    Ok(actions)
                },
                None => Err(undeclared_error("make directory")),
            },
            Command::Echo => {
                actions.push(Action::Print { text: args });
                assert(views(actions@) =~= seq![ActionView::Print { text: args@ }]);
                Ok(actions)
            },
            Command::AddPath => match &self.package_name {
                Some(name) => {
                    let dir = PathManager::package_dir(home, name.as_str());
                    let path = join(dir.as_str(), args.as_str());
                    Ok(PathManager::add_to_path(path.as_str(), platform, home))
                },
                None => Err(undeclared_error("add to path")),
            },
            Command::Comment => Ok(actions),
            Command::Guard(guarded) => {
                if guarded == platform {
                    let invocation = self.command(args.as_str(), platform, home);
                    actions.push(Action::Run { invocation });
                    assert(views(actions@) =~= seq![
                        ActionView::Run {
                            invocation: Self::invocation(self.package(), args@, platform, home@),
                        },
                    ]);
                }
                Ok(actions)
            },
            Command::Always => {
                let invocation = self.command(args.as_str(), platform, home);
                actions.push(Action::Run { invocation });
                assert(views(actions@) =~= seq![
                    ActionView::Run {
                        invocation: Self::invocation(self.package(), args@, platform, home@),
                    },
                ]);
                Ok(actions)
            },
            Command::Unrecognized => {
                let mut e = String::from_str("Unrecognized command '");
                e.append(string_of(word).as_str());
                e.append(" ");
                e.append(args.as_str());
                e.append("'");
                Err(e)
            },
        }
    }

    /// Reads the script from its first line to its last, or to the first
    /// line in error, and gives the actions that the lines ask for.
    pub fn run(&mut self, platform: Platform, home: &str) -> (plan: Plan)
        ensures
            final(self).text() == old(self).text(),
            (Trace {
                package: final(self).package(),
                actions: views(plan.actions@),
                failure: text_of(plan.failure),
            }) == Self::run_of(
                old(self).package(),
                lines_of(old(self).text()),
                platform,
                home@,
            ),
    {
        let text = chars_of(self.script.as_str());
        let all = lines(text.as_slice());
        let ghost start = self.package();
        let ghost source = rows(all@);
        let mut actions: Vec<Action> = Vec::new();
        let mut k: usize = 0;
        assert(views(actions@) =~= Seq::<ActionView>::empty());
        assert(source.skip(0) =~= source);
        while k < all.len()
            invariant
                k <= all.len(),
                source == rows(all@),
                source == lines_of(old(self).text()),
                start == old(self).package(),
                self.text() == old(self).text(),
                Self::run_of(start, source, platform, home@) == Self::after(
                    views(actions@),
                    Self::run_of(self.package(), source.skip(k as int), platform, home@),
                ),
            decreases all.len() - k,
        {
            let ghost before = views(actions@);
            let ghost bound = self.package();
            assert(source.skip(k as int)[0] == all@[k as int]@);
            assert(source.skip(k as int).drop_first() =~= source.skip(k + 1));
            match self.interpret(all[k].as_slice(), platform, home) {
                Ok(mut more) => {
                    let ghost asked = views(more@);
                    actions.append(&mut more);
                    assert(views(actions@) =~= before + asked);
                    let ghost rest = Self::run_of(
                        self.package(),
                        source.skip(k + 1),
                        platform,
                        home@,
                    );
                    assert(before + (asked + rest.actions) =~= (before + asked) + rest.actions);
                },
                Err(e) => {
                    proof {
                        Self::lemma_binding(bound, all@[k as int]@, platform, home@);
                    }
                    assert(before + Seq::<ActionView>::empty() =~= before);
                    return Plan { actions, failure: Some(e) };
                },
            }
            k += 1;
        }
        assert(views(actions@) + Seq::<ActionView>::empty() =~= views(actions@));
        Plan { actions, failure: None }
    }

    /// Whether `line` declares a package: its command is `package`.
    pub open spec fn declares(line: Seq<char>) -> bool {
        split_line(line) matches Some((word, args)) && Command::of(word) == Command::Package
    }

    /// Only a declaration binds a package. A `package` line binds its
    /// argument, whatever was bound before; after any other line, and after
    /// a line in error, the script is with the package that it had.
    pub proof fn lemma_binding(
        package: Option<Seq<char>>,
        line: Seq<char>,
        platform: Platform,
        home: Seq<char>,
    )
        ensures
            Self::step_of(package, line, platform, home).package == (if Self::declares(line) {
                Some(split_line(line)->Some_0.1)
            } else {
                package
            }),
            Self::declares(line) ==> Self::step_of(package, line, platform, home).effects is Ok,
    {
        Self::lemma_keywords();
    }

    /// A command that works on a package ends a script that has declared
    /// none. The error says what the command set out to do.
    pub proof fn lemma_needs_package(line: Seq<char>, platform: Platform, home: Seq<char>)
        ensures
            split_line(line) matches Some((word, args)) ==> match Command::of(word) {
                Command::GitClone => Self::step_of(None, line, platform, home) == Self::fails(
                    None,
                    undeclared("clone repository into package install directory"@),
                ),
                Command::WriteHex => Self::step_of(None, line, platform, home) == Self::fails(
                    None,
                    undeclared("write hex to a file"@),
                ),
                Command::Mkdir => Self::step_of(None, line, platform, home) == Self::fails(
                    None,
                    undeclared("make directory"@),
                ),
                Command::AddPath => Self::step_of(None, line, platform, home) == Self::fails(
                    None,
                    undeclared("add to path"@),
                ),
                _ => true,
            },
    {
        Self::lemma_keywords();
    }

    /// A guarded command asks for a shell on the platform that it names and
    /// for nothing on any other; the package stays as it is.
    pub proof fn lemma_guard(
        package: Option<Seq<char>>,
        line: Seq<char>,
        platform: Platform,
        home: Seq<char>,
    )
        ensures
            split_line(line) matches Some((word, args)) ==> (Command::of(word) matches Command::Guard(
                guarded,
            ) ==> Self::step_of(package, line, platform, home) == (if guarded == platform {
                Self::asks(
                    package,
                    seq![
                        ActionView::Run {
                            invocation: Self::invocation(package, args, platform, home),
                        },
                    ],
                )
            } else {
                Self::asks(package, Seq::empty())
            })),
    {
        Self::lemma_keywords();
    }

    /// Whether `line` is a guarded command: a platform's name and a shell
    /// command.
    pub open spec fn is_guarded(line: Seq<char>) -> bool {
        split_line(line) matches Some((word, args)) && Command::of(word) is Guard
    }

    /// The shell that the guarded command `line` asks for on `platform`:
    /// one on the platform that the line names, none on any other.
    pub open spec fn guarded_run(
        package: Option<Seq<char>>,
        line: Seq<char>,
        platform: Platform,
        home: Seq<char>,
    ) -> Seq<ActionView> {
        if Command::of(split_line(line)->Some_0.0) == Command::Guard(platform) {
            seq![
                ActionView::Run {
                    invocation: Self::invocation(
                        package,
                        split_line(line)->Some_0.1,
                        platform,
                        home,
                    ),
                },
            ]
        } else {
            Seq::empty()
        }
    }

    /// The shells that the guarded commands `lines` ask for on `platform`,
    /// in the order of the lines.
    pub open spec fn guarded_runs(
        package: Option<Seq<char>>,
        lines: Seq<Seq<char>>,
        platform: Platform,
        home: Seq<char>,
    ) -> Seq<ActionView>
        decreases lines.len(),
    {
        if lines.len() == 0 {
            Seq::empty()
        } else {
            Self::guarded_run(package, lines[0], platform, home) + Self::guarded_runs(
                package,
                lines.drop_first(),
                platform,
                home,
            )
        }
    }

    /// A script of guarded commands runs the commands of its own platform
    /// and no others: it is read to its end without an error, the package
    /// stays as it is, and the only actions are the shells of the lines that
    /// name `platform`.
    pub proof fn lemma_guarded_script(
        package: Option<Seq<char>>,
        lines: Seq<Seq<char>>,
        platform: Platform,
        home: Seq<char>,
    )
        requires
            forall|k: int| 0 <= k < lines.len() ==> Self::is_guarded(#[trigger] lines[k]),
        ensures
            Self::run_of(package, lines, platform, home) == (Trace {
                package,
                actions: Self::guarded_runs(package, lines, platform, home),
                failure: None,
            }),
        decreases lines.len(),
    {
        if lines.len() > 0 {
            let rest = lines.drop_first();
            assert(Self::is_guarded(lines[0]));
            Self::lemma_guard(package, lines[0], platform, home);
            assert forall|k: int| 0 <= k < rest.len() implies Self::is_guarded(
                #[trigger] rest[k],
            ) by {
                assert(rest[k] == lines[k + 1]);
            }
            Self::lemma_guarded_script(package, rest, platform, home);
        }
    }

    /// A line whose first word is no command ends the script with an error
    /// that holds the word and its argument.
    pub proof fn lemma_unrecognized(
        package: Option<Seq<char>>,
        line: Seq<char>,
        platform: Platform,
        home: Seq<char>,
    )
        ensures
            split_line(line) matches Some((word, args)) ==> (Command::of(word)
                == Command::Unrecognized && (word.len() > 0 || args.len() > 0) ==> Self::step_of(
                package,
                line,
                platform,
                home,
            ) == Self::fails(package, unrecognized(word, args))),
    {
    }

    /// A script stops at its first line in error: where the lines `done`
    /// are read without an error and `line` is in error after them, the
    /// script of `done`, `line` and any lines `rest` comes to the actions of
    /// `done` and the error of `line`. Nothing of `rest` is asked for.
    pub proof fn lemma_run_stops(
        package: Option<Seq<char>>,
        done: Seq<Seq<char>>,
        line: Seq<char>,
        rest: Seq<Seq<char>>,
        platform: Platform,
        home: Seq<char>,
    )
        requires
            Self::run_of(package, done, platform, home).failure is None,
            Self::step_of(
                Self::run_of(package, done, platform, home).package,
                line,
                platform,
                home,
            ).effects is Err,
        ensures
            Self::run_of(package, done + seq![line] + rest, platform, home) == (Trace {
                package: Self::run_of(package, done, platform, home).package,
                actions: Self::run_of(package, done, platform, home).actions,
                failure: Some(
                    Self::step_of(
                        Self::run_of(package, done, platform, home).package,
                        line,
                        platform,
                        home,
                    ).effects->Err_0,
                ),
            }),
    {
        let first = Self::run_of(package, done, platform, home);
        let tail = seq![line] + rest;
        assert(done + seq![line] + rest =~= done + tail);
        Self::lemma_run_concat(package, done, tail, platform, home);
        assert(tail[0] == line);
        assert(first.actions + Seq::<ActionView>::empty() =~= first.actions);
    }

    /// A script stops at its first line in error, whatever text stands
    /// behind that line. Where `before` is read without an error, and
    /// `line` is in error after it, the script of `before`, `line`, a line
    /// feed and any text `behind` comes to the actions of `before` and the
    /// error of `line`: what `before` asked for stands, and nothing of
    /// `behind` is asked for. `before` is empty or ends in a line feed, so
    /// that `line` is a line of its own; a carriage return before the line
    /// feed belongs to the line ending.
    pub proof fn lemma_text_stops(
        package: Option<Seq<char>>,
        before: Seq<char>,
        line: Seq<char>,
        behind: Seq<char>,
        platform: Platform,
        home: Seq<char>,
    )
        requires
            before.len() == 0 || before.last() == '\n',
            forall|i: int| 0 <= i < line.len() ==> #[trigger] line[i] != '\n',
            Self::run_of(package, lines_of(before), platform, home).failure is None,
            Self::step_of(
                Self::run_of(package, lines_of(before), platform, home).package,
                without_return(line),
                platform,
                home,
            ).effects is Err,
        ensures
            Self::run_of(
                package,
                lines_of(before + (line + "\n"@ + behind)),
                platform,
                home,
            ) == (Trace {
                package: Self::run_of(package, lines_of(before), platform, home).package,
                actions: Self::run_of(package, lines_of(before), platform, home).actions,
                failure: Some(
                    Self::step_of(
                        Self::run_of(package, lines_of(before), platform, home).package,
                        without_return(line),
                        platform,
                        home,
                    ).effects->Err_0,
                ),
            }),
    {
        lemma_lines_concat(before, line + "\n"@ + behind);
        lemma_lines_first(line, behind);
        let read = without_return(line);
        assert(lines_of(before) + (seq![read] + lines_of(behind)) =~= lines_of(before) + seq![read]
            + lines_of(behind));
        Self::lemma_run_stops(package, lines_of(before), read, lines_of(behind), platform, home);
    }

    /// The same of a script that is put together from a script `done` that
    /// is read without an error, a line feed, the line in error, a line
    /// feed and any text `behind`: it comes to the actions of `done` and the
    /// error of `line`. `done` is not empty and ends neither in a line feed
    /// nor in a carriage return, so that the line feed after it ends its
    /// last line and changes nothing else.
    pub proof fn lemma_text_stops_after(
        package: Option<Seq<char>>,
        done: Seq<char>,
        line: Seq<char>,
        behind: Seq<char>,
        platform: Platform,
        home: Seq<char>,
    )
        requires
            done.len() > 0,
            done.last() != '\n',
            done.last() != '\r',
            forall|i: int| 0 <= i < line.len() ==> #[trigger] line[i] != '\n',
            Self::run_of(package, lines_of(done), platform, home).failure is None,
            Self::step_of(
                Self::run_of(package, lines_of(done), platform, home).package,
                without_return(line),
                platform,
                home,
            ).effects is Err,
        ensures
            Self::run_of(
                package,
                lines_of(done + "\n"@ + (line + "\n"@ + behind)),
                platform,
                home,
            ) == (Trace {
                package: Self::run_of(package, lines_of(done), platform, home).package,
                actions: Self::run_of(package, lines_of(done), platform, home).actions,
                failure: Some(
                    Self::step_of(
                        Self::run_of(package, lines_of(done), platform, home).package,
                        without_return(line),
                        platform,
                        home,
                    ).effects->Err_0,
                ),
            }),
    {
        reveal_strlit("\n");
        lemma_lines_closed(done);
        Self::lemma_text_stops(package, done + "\n"@, line, behind, platform, home);
    }

    /// A line with an unrecognized command stops the script, whatever text
    /// stands behind it. Where `before` is read without an error and the
    /// line after it has the word `word`, which is no command, and the
    /// argument `args`: the script comes to the actions of `before` and to
    /// the error that names `word` and `args`.
    pub proof fn lemma_unrecognized_stops(
        package: Option<Seq<char>>,
        before: Seq<char>,
        line: Seq<char>,
        behind: Seq<char>,
        word: Seq<char>,
        args: Seq<char>,
        platform: Platform,
        home: Seq<char>,
    )
        requires
            before.len() == 0 || before.last() == '\n',
            forall|i: int| 0 <= i < line.len() ==> #[trigger] line[i] != '\n',
            Self::run_of(package, lines_of(before), platform, home).failure is None,
            split_line(without_return(line)) == Some((word, args)),
            Command::of(word) == Command::Unrecognized,
            word.len() > 0 || args.len() > 0,
        ensures
            Self::run_of(
                package,
                lines_of(before + (line + "\n"@ + behind)),
                platform,
                home,
            ) == (Trace {
                package: Self::run_of(package, lines_of(before), platform, home).package,
                actions: Self::run_of(package, lines_of(before), platform, home).actions,
                failure: Some(unrecognized(word, args)),
            }),
    {
        let bound = Self::run_of(package, lines_of(before), platform, home).package;
        Self::lemma_unrecognized(bound, without_return(line), platform, home);
        Self::lemma_text_stops(package, before, line, behind, platform, home);
    }

    /// Reading two lists of lines one after the other is reading the first
    /// and, where that ends without an error, reading the second from the
    /// package that the first has declared.
    pub proof fn lemma_run_concat(
        package: Option<Seq<char>>,
        a: Seq<Seq<char>>,
        b: Seq<Seq<char>>,
        platform: Platform,
        home: Seq<char>,
    )
        ensures
            Self::run_of(package, a + b, platform, home) == (if Self::run_of(
                package,
                a,
                platform,
                home,
            ).failure is None {
                Self::after(
                    Self::run_of(package, a, platform, home).actions,
                    Self::run_of(
                        Self::run_of(package, a, platform, home).package,
                        b,
                        platform,
                        home,
                    ),
                )
            } else {
                Self::run_of(package, a, platform, home)
            }),
        decreases a.len(),
    {
        if a.len() == 0 {
            assert(a + b =~= b);
            let rb = Self::run_of(package, b, platform, home);
            assert(Seq::<ActionView>::empty() + rb.actions =~= rb.actions);
        } else {
            let first = Self::step_of(package, a[0], platform, home);
            assert((a + b)[0] == a[0]);
            assert((a + b).drop_first() =~= a.drop_first() + b);
            match first.effects {
                Err(e) => {},
                Ok(actions) => {
                    Self::lemma_run_concat(first.package, a.drop_first(), b, platform, home);
                    let ra = Self::run_of(first.package, a.drop_first(), platform, home);
                    if ra.failure is None {
                        let rb = Self::run_of(ra.package, b, platform, home);
                        assert(actions + (ra.actions + rb.actions) =~= (actions + ra.actions)
                            + rb.actions);
                    }
                },
            }
        }
    }

    /// The three kinds of error are told apart by their text: no error for
    /// an unrecognized command is an error for a missing package or for bad
    /// hexadecimal text, and no error for a missing package is one for bad
    /// hexadecimal text.
    pub proof fn lemma_error_kinds(
        word: Seq<char>,
        args: Seq<char>,
        attempt: Seq<char>,
        hex: Seq<char>,
    )
        ensures
            unrecognized(word, args) != undeclared(attempt),
            unrecognized(word, args) != decode_failure(hex),
            undeclared(attempt) != decode_failure(hex),
    {
        reveal_strlit("Unrecognized command '");
        reveal_strlit("Tried to ");
        reveal_strlit("Could not decode hex code '");
        assert(unrecognized(word, args)[0] == 'U');
        assert(undeclared(attempt)[0] == 'T');
        assert(decode_failure(hex)[0] == 'C');
    }

    /// No command word is the empty text.
    pub proof fn lemma_keywords()
        ensures
            forall|word: Seq<char>|
                word.len() == 0 ==> #[trigger] Command::of(word) == Command::Unrecognized,
    {
        reveal_strlit("package");
        reveal_strlit("git-clone");
        reveal_strlit("rapt-install");
        reveal_strlit("backend-install");
        reveal_strlit("write-hex");
        reveal_strlit("mkdir");
        reveal_strlit("echo");
        reveal_strlit("add-path");
        reveal_strlit("#");
        reveal_strlit("WINDOWS");
        reveal_strlit("MACOS");
        reveal_strlit("UBUNTU");
        reveal_strlit("LINUX");
        reveal_strlit("UNKNOWN");
        reveal_strlit("*");
        assert("package"@.len() == 7);
        assert("git-clone"@.len() == 9);
        assert("rapt-install"@.len() == 12);
        assert("backend-install"@.len() == 15);
        assert("write-hex"@.len() == 9);
        assert("mkdir"@.len() == 5);
        assert("echo"@.len() == 4);
        assert("add-path"@.len() == 8);
        assert("#"@.len() == 1);
        assert("WINDOWS"@.len() == 7);
        assert("MACOS"@.len() == 5);
        assert("UBUNTU"@.len() == 6);
        assert("LINUX"@.len() == 5);
        assert("UNKNOWN"@.len() == 7);
        assert("*"@.len() == 1);
    }

}

/// Builds the error for a command that needs a package.
fn undeclared_error(attempt: &str) -> (e: String)
    ensures
        e@ == undeclared(attempt@),
{
    let mut e = String::from_str("Tried to ");
    e.append(attempt);
    e.append(
        " without declaring the install script as a package installer via the `package PACKAGE_NAME` rapture command.",
    );
    e
}

} // verus!
