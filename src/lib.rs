//! Helpers for branch and release-tag workflows built around a semantic
//! version model that is parsed from `git describe` output, advanced by an
//! increment policy and rendered back as a tag name.
//!
//! The library never runs git itself: it reads the output of git commands
//! that it is handed and returns the argument lists of the commands to run.
pub mod actions;
pub mod decimal;
pub mod descriptor;
pub mod git;
pub mod text;
pub mod version;

pub use actions::checkout_new_development_branch;
pub use git::{
    build_remote_branch_set, choose_master_branch, choose_upstream_remote, clone_directory,
    collect_stale_branches, create_tag, detect_master_branch, detect_stale_branches,
    detect_upstream_remote, get_current_version, has_signing_key, has_working_changes, push_tag, GitError,
};
pub use version::{
    get_next_version, Increment, IncrementError, ParseError, PreRelease, PreReleaseInfo,
    UnknownIncrement, Version,
};
