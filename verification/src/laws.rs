//! What holds of the library as a whole: relations between what its functions
//! are given and what they give back.
pub mod colouring;
pub mod commit_ranges;
pub mod copying;
pub mod diff_commands;
pub mod diff_keys;
pub mod diff_lines;
pub mod highlighting;
pub mod home_paths;
pub mod lists;
pub mod moving;
pub mod popups;
pub mod selections;
pub mod showing;
pub mod side_by_side;
pub mod split_view;
pub mod staging;
pub mod texts;
pub mod truncation;
pub mod unified_view;
pub mod worktree_list;
pub mod worktree_rules;
