//! What a program asks of this library: install from a script, clone a
//! repository into a package, put a directory on the `PATH`.

use crate::action::{text_of, views, Action, Invocation, InvocationView};
use crate::backup;
use crate::download::{Download, DownloadView, Downloader};
use crate::input::{affirms, yes_or_no};
use crate::path::PathManager;
use crate::platform::Platform;
use vstd::prelude::*;
use vstd::string::StringExecFns;

verus! {

/// The invocation that clones the repository at `url` into the directory of
/// the package `name`.
pub open spec fn clone_invocation(
    name: Seq<char>,
    url: Seq<char>,
    platform: Platform,
    home: Seq<char>,
) -> InvocationView {
    let shell = platform.invocation(
        "cd "@ + PathManager::package_path(home, name) + "; git clone "@ + url,
    );
    InvocationView {
        program: shell.program,
        switch: shell.switch,
        command: shell.command,
        failure: "Could not clone git repo '"@ + url + "'"@,
    }
}

/// Describes how to clone the repository at `url` into the directory of the
/// package `package_name`.
pub fn gitclone(package_name: String, url: String, platform: Platform, home: &str) -> (inv:
    Invocation)
    ensures
        inv@ == clone_invocation(package_name@, url@, platform, home@),
{
    let dir = PathManager::package_dir(home, package_name.as_str());
    let mut line = String::from_str("cd ");
    line.append(dir.as_str());
    line.append("; git clone ");
    line.append(url.as_str());
    let shell = platform.command(line.as_str());
    let mut failure = String::from_str("Could not clone git repo '");
    failure.append(url.as_str());
    failure.append("'");
    Invocation { program: shell.program, switch: shell.switch, command: shell.command, failure }
}

/// The actions that put `path` on the user's `PATH`.
pub fn add_to_path(path: String, platform: Platform, home: &str) -> (actions: Vec<Action>)
    ensures
        views(actions@) == PathManager::path_actions(path@, platform, home@),
{
    PathManager::add_to_path(path.as_str(), platform, home)
}

/// What has last happened in an installation from a script.
#[derive(Clone, Debug, PartialEq, Eq)]
pub enum Progress {
    /// Nothing yet.
    Started,
    /// The download has ended; `failure` is the error that kept it from
    /// bringing a script.
    Downloaded { failure: Option<String> },
    /// The script has been run; `failure` is the error that ended it.
    Ran { failure: Option<String> },
    /// The user has answered the offer to use the system's package manager.
    Answered { response: String },
    /// The user has named the package for the system's package manager.
    Named { response: String },
}

/// A `Progress` as mathematical values.
#[verifier::ext_equal]
pub enum ProgressView {
    Started,
    Downloaded { failure: Option<Seq<char>> },
    Ran { failure: Option<Seq<char>> },
    Answered { response: Seq<char> },
    Named { response: Seq<char> },
}

impl View for Progress {
    type V = ProgressView;

    open spec fn view(&self) -> ProgressView {
        match *self {
            Progress::Started => ProgressView::Started,
            Progress::Downloaded { failure } => ProgressView::Downloaded {
                failure: text_of(failure),
            },
            Progress::Ran { failure } => ProgressView::Ran { failure: text_of(failure) },
            Progress::Answered { response } => ProgressView::Answered { response: response@ },
            Progress::Named { response } => ProgressView::Named { response: response@ },
        }
    }
}

/// What a host does next in an installation from a script.
#[derive(Clone, Debug, PartialEq, Eq)]
pub enum Next {
    /// Fetch the script, and report `Downloaded`.
    Fetch { download: Download },
    /// Print `announcement`, run the script that was fetched, and report
    /// `Ran`.
    Run { announcement: String },
    /// Print `report`, put `question` to the user, and report `Answered`.
    Offer { report: String, question: String },
    /// Put `question` to the user, and report `Named`.
    Name { question: String },
    /// Launch the system's package manager; the installation ends with
    /// what becomes of the launch.
    Fallback { invocation: Invocation },
    /// The installation has ended, and not in an error.
    Finish,
    /// The installation has ended in the error `message`.
    Fail { message: String },
}

/// A `Next` as mathematical values.
#[verifier::ext_equal]
pub enum NextView {
    Fetch { download: DownloadView },
    Run { announcement: Seq<char> },
    Offer { report: Seq<char>, question: Seq<char> },
    Name { question: Seq<char> },
    Fallback { invocation: InvocationView },
    Finish,
    Fail { message: Seq<char> },
}

impl View for Next {
    type V = NextView;

    open spec fn view(&self) -> NextView {
        match *self {
            Next::Fetch { download } => NextView::Fetch { download: download@ },
            Next::Run { announcement } => NextView::Run { announcement: announcement@ },
            Next::Offer { report, question } => NextView::Offer {
                report: report@,
                question: question@,
            },
            Next::Name { question } => NextView::Name { question: question@ },
            Next::Fallback { invocation } => NextView::Fallback { invocation: invocation@ },
            Next::Finish => NextView::Finish,
            Next::Fail { message } => NextView::Fail { message: message@ },
        }
    }
}

/// The next step of the installation from the script at `url`, after
/// `progress`. A script that cannot be fetched ends the installation in the
/// download's error, and no line of it is read. A script that ends in an
/// error leads to the offer to install with the system's package manager.
pub open spec fn next_step(
    url: Seq<char>,
    progress: ProgressView,
    platform: Platform,
    home: Seq<char>,
) -> NextView {
    match progress {
        ProgressView::Started => NextView::Fetch {
            download: Downloader::script_download(url, platform, home),
        },
        ProgressView::Downloaded { failure } => match failure {
            Some(message) => NextView::Fail { message },
            None => NextView::Run {
                announcement: "Installing rapture script at '"@ + url + "'"@,
            },
        },
        ProgressView::Ran { failure } => match failure {
            Some(e) => NextView::Offer {
                report: "There was a problem installing the package: "@ + e,
                question: "Do you want to try to install your package using "@ + backup::installer(
                    platform,
                ) + "? (y/n) "@,
            },
            None => NextView::Finish,
        },
        ProgressView::Answered { response } => if affirms(response) {
            NextView::Name {
                question: "What's the name of the package you want to install with "@
                    + backup::installer(platform) + "? "@,
            }
        } else {
            NextView::Finish
        },
        ProgressView::Named { response } => NextView::Fallback {
            invocation: backup::installation(platform, response),
        },
    }
}

/// Decides the next step of the installation from the script at `url`.
pub fn install(url: String, progress: Progress, platform: Platform, home: &str) -> (next: Next)
    ensures
        next@ == next_step(url@, progress@, platform, home@),
{
    match progress {
        Progress::Started => Next::Fetch {
            download: Downloader::download_script(url, platform, home),
        },
        Progress::Downloaded { failure } => match failure {
            Some(message) => Next::Fail { message },
            None => {
                let mut announcement = String::from_str("Installing rapture script at '");
                announcement.append(url.as_str());
                announcement.append("'");
                Next::Run { announcement }
            },
        },
        Progress::Ran { failure } => match failure {
            Some(e) => {
                let mut report = String::from_str("There was a problem installing the package: ");
                report.append(e.as_str());
                let mut question = String::from_str(
                    "Do you want to try to install your package using ",
                );
                question.append(backup::installer_name(platform).as_str());
                question.append("? (y/n) ");
                Next::Offer { report, question }
            },
            None => Next::Finish,
        },
        Progress::Answered { response } => {
            if yes_or_no(response.as_str()) {
                let mut question = String::from_str(
                    "What's the name of the package you want to install with ",
                );
                question.append(backup::installer_name(platform).as_str());
                question.append("? ");
                Next::Name { question }
            } else {
                Next::Finish
            }
        },
        Progress::Named { response } => Next::Fallback {
            invocation: backup::install(response, platform),
        },
    }
}

} // verus!
