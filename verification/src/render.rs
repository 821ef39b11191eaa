//! What the windows of gitko show: lines of styled text, and a window that
//! scrolls over them and keeps a cursor. Drawing them on a terminal is left
//! to the program around this library.
use vstd::prelude::*;

verus! {

/// A piece of text and how it is drawn: in a colour pair (foreground and
/// background curses colour numbers) or the terminal's own colours, bold or
/// not, underlined or not.
pub struct Fragment {
    pub text: String,
    pub colors: Option<(i16, i16)>,
    pub bold: bool,
    pub underlined: bool,
}

impl Fragment {
    /// Text drawn as the terminal draws it.
    pub fn plain(text: String) -> (f: Fragment)
        ensures
            f.text@ == text@,
            f.colors is None,
            !f.bold,
            !f.underlined,
    {
        Fragment { text, colors: None, bold: false, underlined: false }
    }

    /// Text drawn with foreground colour `fg` on background colour `bg`.
    pub fn colored(text: String, fg: i16, bg: i16) -> (f: Fragment)
        ensures
            f.text@ == text@,
            f.colors == Some((fg, bg)),
            !f.bold,
            !f.underlined,
    {
        Fragment { text, colors: Some((fg, bg)), bold: false, underlined: false }
    }

    /// `inner`, drawn bold.
    pub fn bold(inner: Fragment) -> (f: Fragment)
        ensures
            f.text@ == inner.text@,
            f.colors == inner.colors,
            f.bold,
            f.underlined == inner.underlined,
    {
        Fragment { bold: true, ..inner }
    }

    /// `inner`, drawn underlined.
    pub fn underlined(inner: Fragment) -> (f: Fragment)
        ensures
            f.text@ == inner.text@,
            f.colors == inner.colors,
            f.bold == inner.bold,
            f.underlined,
    {
        Fragment { underlined: true, ..inner }
    }
}

/// One line on the screen, made of fragments drawn one after the other.
pub struct Line {
    pub fragments: Vec<Fragment>,
}

/// `line` is the single fragment `text`, drawn in `colors` (or the
/// terminal's own colours), with the given weight and underlining.
pub open spec fn is_single_fragment(
    line: Line,
    text: Seq<char>,
    colors: Option<(i16, i16)>,
    bold: bool,
    underlined: bool,
) -> bool {
    &&& line.fragments@.len() == 1
    &&& line.fragments@[0].text@ == text
    &&& line.fragments@[0].colors == colors
    &&& line.fragments@[0].bold == bold
    &&& line.fragments@[0].underlined == underlined
}

/// `line` is `text` drawn as the terminal draws it.
pub open spec fn is_plain_line(line: Line, text: Seq<char>) -> bool {
    is_single_fragment(line, text, None, false, false)
}

impl Line {
    /// The line made of `fragments`.
    pub fn new(fragments: Vec<Fragment>) -> (line: Line)
        ensures
            line.fragments == fragments,
    {
        Line { fragments }
    }

    /// The line that shows `text` as the terminal draws it.
    pub fn from_string(text: String) -> (line: Line)
        ensures
            is_plain_line(line, text@),
    {
        Line { fragments: vec![Fragment::plain(text)] }
    }
}

/// The size asked for a window, in lines and columns. A zero stretches the
/// window to the edge of the terminal, as curses' `newwin` takes it.
#[derive(Clone, Copy, Debug, PartialEq, Eq, Structural)]
pub struct ScreenSize {
    pub lines: i32,
    pub cols: i32,
}

impl ScreenSize {
    /// The whole terminal.
    pub fn max() -> (size: ScreenSize)
        ensures
            size == (ScreenSize { lines: 0, cols: 0 }),
    {
        ScreenSize { lines: 0, cols: 0 }
    }
}

/// Where a window's top left corner goes: column `x`, line `y`.
#[derive(Clone, Copy, Debug, PartialEq, Eq, Structural)]
pub struct Position {
    pub x: i32,
    pub y: i32,
}

impl Position {
    /// The top left corner of the terminal.
    pub fn default() -> (position: Position)
        ensures
            position == (Position { x: 0, y: 0 }),
    {
        Position { x: 0, y: 0 }
    }
}

/// The index of the last of `rows` rows (0 where there are none).
pub open spec fn last_row(rows: nat) -> nat {
    if rows == 0 {
        0
    } else {
        (rows - 1) as nat
    }
}

/// Where the top of the screen goes when it moves `n` lines up from `top`:
/// `n` lines, or to the first line where fewer are above.
pub open spec fn moved_up(top: nat, n: nat) -> nat {
    if n <= top {
        (top - n) as nat
    } else {
        0
    }
}

/// Where the top of the screen goes when it moves `n` lines down from `top`
/// over `rows` rows: `n` lines, but not past the last row; a top already
/// past it stays.
pub open spec fn moved_down(top: nat, rows: nat, n: nat) -> nat {
    if top >= last_row(rows) {
        top
    } else if top + n <= last_row(rows) {
        top + n
    } else {
        last_row(rows)
    }
}

/// Moving the screen up `a` lines and then `b` lines is moving it up
/// `a + b` lines.
pub proof fn lemma_moved_up_twice(top: nat, a: nat, b: nat)
    ensures
        moved_up(moved_up(top, a), b) == moved_up(top, a + b),
{
}

/// Moving the screen down `a` lines and then `b` lines is moving it down
/// `a + b` lines.
pub proof fn lemma_moved_down_twice(top: nat, rows: nat, a: nat, b: nat)
    ensures
        moved_down(moved_down(top, rows, a), rows, b) == moved_down(top, rows, a + b),
{
}

/// Moving the screen down `n` lines and back up `n` lines brings back the
/// first position, where the move down did not stop at the last row.
pub proof fn lemma_down_then_up(top: nat, rows: nat, n: nat)
    requires
        top + n <= last_row(rows),
    ensures
        moved_up(moved_down(top, rows, n), n) == top,
{
}

/// A window: the styled lines or the plain text it shows, its size, the
/// first line shown at its top, and the line the cursor is on.
pub struct Window {
    pub lines: Vec<Line>,
    pub data: Vec<String>,
    pub height: i32,
    pub width: i32,
    pub top: usize,
    pub cursor: usize,
}

impl Window {
    /// An empty window of `height` lines and `width` columns, showing from
    /// its first line, with the cursor on it.
    pub fn new(height: i32, width: i32) -> (window: Window)
        ensures
            window.lines@.len() == 0,
            window.data@.len() == 0,
            window.height == height,
            window.width == width,
            window.top == 0,
            window.cursor == 0,
    {
        Window { lines: Vec::new(), data: Vec::new(), height, width, top: 0, cursor: 0 }
    }

    pub fn height(&self) -> (h: i32)
        ensures
            h == self.height,
    {
        self.height
    }

    pub fn width(&self) -> (w: i32)
        ensures
            w == self.width,
    {
        self.width
    }

    /// Moves what the window shows `n` lines up (`moved_up`); nothing else
    /// changes.
    pub fn move_screen_up(&mut self, n: usize)
        ensures
            final(self).top == moved_up(old(self).top as nat, n as nat),
            final(self).lines == old(self).lines,
            final(self).data == old(self).data,
            final(self).height == old(self).height,
            final(self).width == old(self).width,
            final(self).cursor == old(self).cursor,
    {
        if n <= self.top {
            self.top = self.top - n;
        } else {
            self.top = 0;
        }
    }

    /// Moves what the window shows `n` lines down over `rows` rows of
    /// content (`moved_down`); nothing else changes.
    pub fn move_screen_down(&mut self, rows: usize, n: usize)
        ensures
            final(self).top == moved_down(old(self).top as nat, rows as nat, n as nat),
            final(self).lines == old(self).lines,
            final(self).data == old(self).data,
            final(self).height == old(self).height,
            final(self).width == old(self).width,
            final(self).cursor == old(self).cursor,
    {
        let last: usize = if rows == 0 {
            0
        } else {
            rows - 1
        };
        if self.top >= last {
        } else if n <= last - self.top {
            self.top = self.top + n;
        } else {
            self.top = last;
        }
    }

    /// Moves the cursor one line up, where there is one above.
    pub fn move_cursor_up(&mut self)
        ensures
            final(self).cursor == (if old(self).cursor > 0 {
                old(self).cursor - 1
            } else {
                0
            }),
            final(self).lines == old(self).lines,
            final(self).data == old(self).data,
            final(self).height == old(self).height,
            final(self).width == old(self).width,
            final(self).top == old(self).top,
    {
        if self.cursor > 0 {
            self.cursor = self.cursor - 1;
        }
    }

    /// Moves the cursor one line down, where there is a line of text below.
    pub fn move_cursor_down(&mut self)
        ensures
            final(self).cursor == (if old(self).cursor + 1 < old(self).data@.len() {
                old(self).cursor + 1
            } else {
                old(self).cursor as int
            }),
            final(self).lines == old(self).lines,
            final(self).data == old(self).data,
            final(self).height == old(self).height,
            final(self).width == old(self).width,
            final(self).top == old(self).top,
    {
        if self.cursor < self.data.len() && self.data.len() - self.cursor > 1 {
            self.cursor = self.cursor + 1;
        }
    }

    /// Puts the cursor on the last line of text where it is past it (as
    /// when the text got shorter), on the first line where there is no
    /// text; nothing else changes.
    pub fn keep_cursor_on_text(&mut self)
        ensures
            final(self).cursor == (if old(self).cursor < old(self).data@.len() {
                old(self).cursor as int
            } else if old(self).data@.len() > 0 {
                old(self).data@.len() - 1
            } else {
                0
            }),
            final(self).lines == old(self).lines,
            final(self).data == old(self).data,
            final(self).height == old(self).height,
            final(self).width == old(self).width,
            final(self).top == old(self).top,
    {
        if self.cursor >= self.data.len() {
            if self.data.len() > 0 {
                self.cursor = self.data.len() - 1;
            } else {
                self.cursor = 0;
            }
        }
    }

    /// The line of text the cursor is on.
    pub fn get_cursor_line(&self) -> (line: String)
        requires
            self.cursor < self.data@.len(),
        ensures
            line@ == self.data@[self.cursor as int]@,
    {
        self.data[self.cursor].clone()
    }
}

} // verus!
