//! Fetching a script from the network, with `curl`.

use crate::action::{Action, ActionView, Invocation, InvocationView};
use crate::path::{join, joined, PathManager};
use crate::platform::Platform;
use vstd::prelude::*;
use vstd::string::StringExecFns;

verus! {

/// How to fetch a script: make sure the install directory is there, let
/// `curl` write the script to `file`, then read `file`.
#[derive(Clone, Debug, PartialEq, Eq)]
pub struct Download {
    /// Makes sure the install directory is there.
    pub prepare: Action,
    /// Runs `curl`.
    pub fetch: Invocation,
    /// Where the script is once `curl` has run.
    pub file: String,
    /// The error to report when `file` cannot be opened or read.
    pub failure: String,
}

/// A `Download` as mathematical values.
#[verifier::ext_equal]
pub struct DownloadView {
    pub prepare: ActionView,
    pub fetch: InvocationView,
    pub file: Seq<char>,
    pub failure: Seq<char>,
}

impl View for Download {
    type V = DownloadView;

    open spec fn view(&self) -> DownloadView {
        DownloadView {
            prepare: self.prepare@,
            fetch: self.fetch@,
            file: self.file@,
            failure: self.failure@,
        }
    }
}

/// Download computations. There is no state: the type only groups them.
pub struct Downloader {}

impl Downloader {
    /// The invocation with which `curl` writes what is at `url` to `output`.
    pub open spec fn fetch(url: Seq<char>, output: Seq<char>, platform: Platform) -> InvocationView {
        let shell = platform.invocation("curl '"@ + url + "' -o "@ + output);
        InvocationView {
            program: shell.program,
            switch: shell.switch,
            command: shell.command,
            failure: "Curl failed to download the file at "@ + url + " to "@ + output,
        }
    }

    /// The file in the install directory that a fetched script is written
    /// to.
    pub open spec fn landing(home: Seq<char>) -> Seq<char> {
        joined(PathManager::install_path(home), "rapture_download.txt"@)
    }

    /// How the script at `url` is fetched.
    pub open spec fn script_download(url: Seq<char>, platform: Platform, home: Seq<char>) -> DownloadView {
        DownloadView {
            prepare: PathManager::ensure_dir(PathManager::install_path(home)),
            fetch: Self::fetch(url, Self::landing(home), platform),
            file: Self::landing(home),
            failure: "Could not open downloaded script"@,
        }
    }

    /// Describes how to fetch the script at `url`.
    pub fn download_script(url: String, platform: Platform, home: &str) -> (download: Download)
        ensures
            download@ == Self::script_download(url@, platform, home@),
    {
        let prepare = PathManager::make_install_dir(home);
        let root = PathManager::install_dir(home);
        let file = join(root.as_str(), "rapture_download.txt");
        let fetch = Self::download_file(url, file.clone(), platform);
        Download { prepare, fetch, file, failure: String::from_str("Could not open downloaded script") }
    }

    /// Describes how to write what is at `url` to `output_file`.
    pub fn download_file(url: String, output_file: String, platform: Platform) -> (inv: Invocation)
        ensures
            inv@ == Self::fetch(url@, output_file@, platform),
    {
        let mut line = String::from_str("curl '");
        line.append(url.as_str());
        line.append("' -o ");
        line.append(output_file.as_str());
        let shell = platform.command(line.as_str());
        let mut failure = String::from_str("Curl failed to download the file at ");
        failure.append(url.as_str());
        failure.append(" to ");
        failure.append(output_file.as_str());
        Invocation { program: shell.program, switch: shell.switch, command: shell.command, failure }
    }
}

} // verus!
