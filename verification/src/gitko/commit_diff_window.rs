//! The window that shows the changes one commit made.
use std::collections::HashMap;
use vstd::prelude::*;
use crate::ascii_table::{KEY_J_LOWER, KEY_K_LOWER};
use crate::git::{self, Git, diff_commit_args, ran_exactly, run_output};
use crate::text::lines_of;
use crate::render::{Window, moved_down, moved_up};
use crate::gitko::diff_window::same_but_top;

verus! {

/// A window that shows the changes that the commit `commit_hash` made; `data`
/// holds the lines of that diff once the window has started.
pub struct CommitDiffWindow {
    pub commit_hash: String,
    pub data: Vec<String>,
}

/// What a key does in the commit diff window.
#[derive(Clone, Copy, Debug, PartialEq, Eq, Structural)]
pub enum CommitDiffCommand {
    MoveScreenDown,
    MoveScreenUp,
}

impl CommitDiffWindow {
    /// A window for the commit `commit_hash`, with no lines yet.
    pub fn new(commit_hash: &str) -> (window: CommitDiffWindow)
        ensures
            window.commit_hash@ == commit_hash@,
            window.data@.len() == 0,
    {
        CommitDiffWindow { commit_hash: commit_hash.to_owned(), data: vec![] }
    }

    /// Moves the screen one line up.
    pub fn move_screen_up(&mut self, window: &mut Window) -> (keep_open: bool)
        ensures
            keep_open,
            final(window).top == moved_up(old(window).top as nat, 1),
            same_but_top(*final(window), *old(window)),
            final(self).data == old(self).data,
            final(self).commit_hash == old(self).commit_hash,
    {
        window.move_screen_up(1);
        true
    }

    /// Moves the screen one line down, over the lines of the diff.
    pub fn move_screen_down(&mut self, window: &mut Window) -> (keep_open: bool)
        ensures
            keep_open,
            final(window).top == moved_down(old(window).top as nat, old(self).data@.len(), 1),
            same_but_top(*final(window), *old(window)),
            final(self).data == old(self).data,
            final(self).commit_hash == old(self).commit_hash,
    {
        window.move_screen_down(self.data.len(), 1);
        true
    }

    /// Reads the diff of the commit: git runs once, as
    /// `git --no-pager diff <commit_hash>^!`, and its lines are the data; the
    /// window is left as it is.
    pub fn on_start<R: Fn(Vec<String>) -> String>(&mut self, window: &mut Window, git: &mut Git<R>)
        ensures
            ran_exactly(old(git).calls(), final(git).calls(), seq![diff_commit_args(old(self).commit_hash@)]),
            final(self).data.deep_view() == lines_of(
                run_output(final(git).calls(), old(git).calls().len() as int),
            ),
            final(self).commit_hash == old(self).commit_hash,
            *final(window) == *old(window),
    {
        self.data = git::diff_commit(git, self.commit_hash.as_str());
    }

    /// The lines the window shows.
    pub fn data(&self) -> (lines: &Vec<String>)
        ensures
            lines == &self.data,
    {
        &self.data
    }

    /// Binds `j` and `k` to moving the screen down and up a line.
    pub fn register_handlers(&self, handlers: &mut HashMap<i32, CommitDiffCommand>)
        ensures
            final(handlers)@ == old(handlers)@.insert(KEY_J_LOWER, CommitDiffCommand::MoveScreenDown).insert(
                KEY_K_LOWER,
                CommitDiffCommand::MoveScreenUp,
            ),
    {
        handlers.insert(KEY_J_LOWER, CommitDiffCommand::MoveScreenDown);
        handlers.insert(KEY_K_LOWER, CommitDiffCommand::MoveScreenUp);
    }

    /// Does what `command` stands for; answers whether the window stays open.
    pub fn handle(&mut self, command: CommitDiffCommand, window: &mut Window) -> (keep_open: bool)
        ensures
            keep_open,
            same_but_top(*final(window), *old(window)),
            final(window).top == match command {
                CommitDiffCommand::MoveScreenDown => moved_down(old(window).top as nat, old(self).data@.len(), 1),
                CommitDiffCommand::MoveScreenUp => moved_up(old(window).top as nat, 1),
            },
            final(self).data == old(self).data,
            final(self).commit_hash == old(self).commit_hash,
    {
        match command {
            CommitDiffCommand::MoveScreenDown => self.move_screen_down(window),
            CommitDiffCommand::MoveScreenUp => self.move_screen_up(window),
        }
    }
}

} // verus!
