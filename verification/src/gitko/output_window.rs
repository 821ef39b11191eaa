//! The window that shows what a command printed.
use std::collections::HashMap;
use vstd::prelude::*;
use crate::ascii_table::{KEY_ETB, KEY_LF};
use crate::render::{Fragment, Line, Window, is_plain_line, is_single_fragment};

verus! {

/// A window that shows the lines a command printed under a heading.
pub struct OutputWindow {
    pub output: Vec<String>,
}

/// What a key does in the output window.
#[derive(Clone, Copy, Debug, PartialEq, Eq, Structural)]
pub enum OutputCommand {
    Close,
}

impl OutputWindow {
    /// Closes the window: a handler that answers `false` ends it.
    pub fn close(&mut self, _window: &mut Window) -> (keep_open: bool)
        ensures
            !keep_open,
            final(self).output == old(self).output,
            *final(_window) == *old(_window),
    {
        false
    }

    /// Fills the window: the heading "Command output:", bold and underlined,
    /// then each line of the output as it is.
    pub fn on_start(&mut self, window: &mut Window)
        ensures
            final(window).lines@.len() == old(self).output@.len() + 1,
            is_single_fragment(final(window).lines@[0], "Command output:"@, None, true, true),
            forall|i: int|
                0 <= i < old(self).output@.len() ==> #[trigger] is_plain_line(
                    final(window).lines@[i + 1],
                    old(self).output@[i]@,
                ),
            final(window).data == old(window).data,
            final(window).height == old(window).height,
            final(window).width == old(window).width,
            final(window).top == old(window).top,
            final(window).cursor == old(window).cursor,
            final(self).output == old(self).output,
    {
        let heading = Fragment::bold(Fragment::underlined(Fragment::plain("Command output:".to_owned())));
        let mut lines: Vec<Line> = vec![Line::new(vec![heading])];
        let mut i: usize = 0;
        while i < self.output.len()
            invariant
                i <= self.output@.len(),
                lines@.len() == i + 1,
                is_single_fragment(lines@[0], "Command output:"@, None, true, true),
                forall|k: int| 0 <= k < i ==> #[trigger] is_plain_line(lines@[k + 1], self.output@[k]@),
            decreases self.output@.len() - i,
        {
            lines.push(Line::from_string(self.output[i].clone()));
            i = i + 1;
        }
        window.lines = lines;
    }

    /// Binds Enter and Ctrl-W to closing the window.
    pub fn register_handlers(&self, handlers: &mut HashMap<i32, OutputCommand>)
        ensures
            final(handlers)@ == old(handlers)@.insert(KEY_LF, OutputCommand::Close).insert(
                KEY_ETB,
                OutputCommand::Close,
            ),
    {
        handlers.insert(KEY_LF, OutputCommand::Close);
        handlers.insert(KEY_ETB, OutputCommand::Close);
    }

    /// Does what `command` stands for; answers whether the window stays open.
    /// Every command closes the window and leaves the output and the window
    /// as they were.
    pub fn handle(&mut self, command: OutputCommand, window: &mut Window) -> (keep_open: bool)
        ensures
            command == OutputCommand::Close ==> !keep_open,
            final(self).output == old(self).output,
            *final(window) == *old(window),
    {
        match command {
            OutputCommand::Close => self.close(window),
        }
    }
}

} // verus!
