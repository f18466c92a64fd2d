//! Diff viewing and worktree management for a terminal git client.

pub mod area;
pub mod branch_diff;
pub mod columns;
pub mod create_worktree;
pub mod diff;
pub mod diff_actions;
pub mod diff_component;
pub mod diff_view;
pub mod error;
pub mod event;
pub mod highlight;
pub mod laws;
pub mod open_repo;
pub mod paths;
pub mod popup;
pub mod render;
pub mod selection;
pub mod split;
pub mod text;
pub mod worktree;
pub mod worktrees;
