//! Oaf: a friendlier front-end for Git, with its decision logic verified.
pub mod text;
pub mod git;
pub mod path;
pub mod worktree;
pub mod commit;
pub mod switch;
pub mod repo;
pub mod branch;
pub mod removals;
pub mod stash;
pub mod commands;
