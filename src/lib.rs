//! A branch-per-worktree workflow on top of git: reads git's machine-readable
//! worktree listing, finds the worktree of a branch, resolves a branch's parent,
//! and plans the stash-rebase-unstash sequence that brings one worktree up to
//! date with another.

pub mod config;
pub mod error;
pub mod exec;
pub mod git;
pub mod rebase;
pub mod text;
pub mod workflow;
pub mod worktree;
