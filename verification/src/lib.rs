//! Worktree management: where a branch's worktree lives, how the user picks
//! one, and what to do with the pick.

pub mod db;
pub mod digest;
pub mod git;
pub mod i18n;
pub mod matcher;
pub mod paths;
pub mod ranking;
pub mod selector;
pub mod setup;
pub mod text;
pub mod tui;
pub mod worktree;
