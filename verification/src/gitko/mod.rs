//! The windows of gitko.
pub mod commit_diff_window;
pub mod diff_window;
pub mod main_window;
pub mod output_window;
