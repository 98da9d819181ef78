//! A small package installer driven by line-oriented install scripts.
//!
//! A script declares a package, fetches or clones sources, writes files and
//! runs shell commands, some of them on one platform only. The library
//! reads scripts and writes them: it turns a script into the list of
//! actions that installs the package, and a directory tree into the script
//! that rebuilds the tree. It touches neither the file system nor the
//! shell; a host program performs the actions.

pub mod action;
pub mod backup;
pub mod capture;
pub mod download;
pub mod frontend;
pub mod input;
pub mod path;
pub mod platform;
pub mod roundtrip;
pub mod script;
pub mod text;

pub use capture::capture;
pub use frontend::{add_to_path, gitclone, install};
pub use script::{split_first_space, Script};
