//! What the editor puts on screen, as text: the document rows in view, the
//! status bar and the message line.

use crate::editor::{least, shown_at, Editor, Size, State};
use crate::position::Position;
use crate::row::{rendered, Row};
use crate::text::{blank, cut, decimal, decimal_string, spaces, truncated};
use vstd::prelude::*;

verus! {

/// One full screen.
pub enum Screen {
    /// The editor is done: clear the screen and say goodbye.
    Goodbye,
    /// The text rows from the top, the status bar, the message line, and
    /// where the cursor goes, counted from the top left of the text area.
    Frame { rows: Vec<String>, status_bar: String, message_bar: String, cursor: Position },
}

/// The part of a row that the window shows.
pub open spec fn row_shown(text: Seq<char>, offset: Position, size: Size) -> Seq<char> {
    rendered(text, offset.x as int, least(offset.x + size.width, usize::MAX as int))
}

/// The banner of an empty document: a tilde, then the editor's name and
/// version about the middle of the line, cut to the window's width.
pub open spec fn welcome(version: Seq<char>, width: int) -> Seq<char> {
    let message = "Editr -- version "@ + version;
    let padding = if width > message.len() {
        (width - message.len()) / 2
    } else {
        0
    };
    let gap = if padding > 0 {
        padding - 1
    } else {
        0
    };
    cut(seq!['~'] + spaces(gap as nat) + message, width)
}

/// Row `index` of the text area: the document row that scrolled there; on an
/// empty document the banner, a third of the way down; else a tilde.
pub open spec fn screen_row(state: State, version: Seq<char>, index: int) -> Seq<char> {
    let y = state.offset.y + index;
    if y < state.lines.len() {
        row_shown(state.lines[y], state.offset, state.size)
    } else if state.lines.len() == 0 && index == state.size.height / 3 {
        welcome(version, state.size.width as int)
    } else {
        seq!['~']
    }
}

/// The left part of the status bar: the file's name, cut to twenty
/// characters, the number of lines, and a mark where there are changes.
pub open spec fn status_left(state: State) -> Seq<char> {
    let name = match state.name {
        Some(name) => cut(name, 20),
        None => "[No Name]"@,
    };
    name + " - "@ + decimal(state.lines.len()) + " lines"@ + if state.dirty {
        " (modified)"@
    } else {
        Seq::empty()
    }
}

/// The right part of the status bar: line and column, counted from one.
pub open spec fn status_right(state: State) -> Seq<char> {
    "Ln "@ + decimal(least(state.cursor.y + 1, usize::MAX as int) as nat) + ", Col "@ + decimal(
        least(state.cursor.x + 1, usize::MAX as int) as nat,
    )
}

/// The status bar: the left part, blanks to fill the line where there is
/// room, and the right part, all cut to the window's width.
pub open spec fn status_bar(state: State) -> Seq<char> {
    let left = status_left(state);
    let right = status_right(state);
    let width = state.size.width as int;
    let used = left.len() + right.len();
    let padded = if width > used {
        left + spaces((width - used) as nat)
    } else {
        left
    };
    cut(padded + right, width)
}

/// The message line at `now`: the message, cut to the window's width, while
/// it is fresh; nothing after that.
pub open spec fn message_bar(state: State, now: u64) -> Seq<char> {
    if shown_at(state.status_time, now) {
        cut(state.status, state.size.width as int)
    } else {
        Seq::empty()
    }
}

/// Where the cursor stands in the window.
pub open spec fn screen_cursor(state: State) -> Position {
    Position {
        x: if state.cursor.x > state.offset.x {
            (state.cursor.x - state.offset.x) as usize
        } else {
            0
        },
        y: if state.cursor.y > state.offset.y {
            (state.cursor.y - state.offset.y) as usize
        } else {
            0
        },
    }
}

impl Editor {
    /// The part of `row` that the window shows.
    pub fn draw_row(&self, row: &Row) -> (text: String)
        ensures
            text@ == row_shown(row@, self@.offset, self@.size),
    {
        let width: usize = self.size().width as usize;
        let start = self.offset().x;
        let end = start.saturating_add(width);
        row.render(start, end)
    }

    /// The banner of an empty document.
    pub fn draw_welcome_message(&self, version: &str) -> (text: String)
        ensures
            text@ == welcome(version@, self@.size.width as int),
    {
        let mut message = String::from_str("Editr -- version ");
        message.append(version);
        let width: usize = self.size().width as usize;
        let len = message.as_str().unicode_len();
        let padding = width.saturating_sub(len) / 2;
        let gap = blank(padding.saturating_sub(1));
        let mut line = String::new();
        line.push('~');
        line.append(gap.as_str());
        line.append(message.as_str());
        proof {
            assert(line@ =~= seq!['~'] + gap@ + message@);
        }
        truncated(line.as_str(), width)
    }

    /// The rows of the text area, from the top.
    pub fn draw_rows(&self, version: &str) -> (rows: Vec<String>)
        ensures
            rows@.len() == self@.size.height,
            forall|i: int|
                0 <= i < rows@.len() ==> (#[trigger] rows@[i])@ == screen_row(self@, version@, i),
    {
        let height: usize = self.size().height as usize;
        let top = self.offset().y;
        let mut rows: Vec<String> = Vec::new();
        let mut index: usize = 0;
        while index < height
            invariant
                index <= height == self@.size.height,
                top == self@.offset.y,
                rows@.len() == index,
                forall|i: int|
                    0 <= i < index ==> (#[trigger] rows@[i])@ == screen_row(self@, version@, i),
            decreases height - index,
        {
            let found = if index <= usize::MAX - top {
                self.document().row(top + index)
            } else {
                None
            };
            let line = match found {
                Some(row) => self.draw_row(row),
                None => {
                    if self.document().is_empty() && index == height / 3 {
                        self.draw_welcome_message(version)
                    } else {
                        let mut tilde = String::new();
                        tilde.push('~');
                        proof {
                            assert(tilde@ =~= seq!['~']);
                        }
                        tilde
                    }
                },
            };
            proof {
                self.doc().lemma_rows();
            }
            rows.push(line);
            index += 1;
        }
        rows
    }

    /// The status bar.
    pub fn draw_status_bar(&self) -> (text: String)
        ensures
            text@ == status_bar(self@),
    {
        let width: usize = self.size().width as usize;
        let mut status = match self.document().file_name() {
            Some(name) => truncated(name, 20),
            None => String::from_str("[No Name]"),
        };
        status.append(" - ");
        status.append(decimal_string(self.document().len()).as_str());
        status.append(" lines");
        if self.document().is_dirty() {
            status.append(" (modified)");
        }
        proof {
            assert(status@ =~= status_left(self@));
        }
        let cursor = self.cursor_position();
        let mut line_indicator = String::from_str("Ln ");
        line_indicator.append(decimal_string(cursor.y.saturating_add(1)).as_str());
        line_indicator.append(", Col ");
        line_indicator.append(decimal_string(cursor.x.saturating_add(1)).as_str());
        proof {
            assert(line_indicator@ =~= status_right(self@));
        }
        let len = status.as_str().unicode_len().saturating_add(
            line_indicator.as_str().unicode_len(),
        );
        if width > len {
            status.append(blank(width - len).as_str());
        }
        status.append(line_indicator.as_str());
        truncated(status.as_str(), width)
    }

    /// The message line at `now`.
    pub fn draw_message_bar(&self, now: u64) -> (text: String)
        ensures
            text@ == message_bar(self@, now),
    {
        let message = self.status_message();
        if message.is_visible(now) {
            truncated(message.as_str(), self.size().width as usize)
        } else {
            String::new()
        }
    }

    /// The whole screen at `now`.
    pub fn refresh_screen(&self, now: u64, version: &str) -> (screen: Screen)
        ensures
            self@.should_quit <==> screen is Goodbye,
            match screen {
                Screen::Goodbye => true,
                Screen::Frame { rows, status_bar: bar, message_bar: message, cursor } => {
                    &&& rows@.len() == self@.size.height
                    &&& forall|i: int|
                        0 <= i < rows@.len() ==> (#[trigger] rows@[i])@ == screen_row(
                            self@,
                            version@,
                            i,
                        )
                    &&& bar@ == status_bar(self@)
                    &&& message@ == message_bar(self@, now)
                    &&& cursor == screen_cursor(self@)
                },
            },
    {
        if self.should_quit() {
            return Screen::Goodbye;
        }
        let at = self.cursor_position();
        let offset = self.offset();
        Screen::Frame {
            rows: self.draw_rows(version),
            status_bar: self.draw_status_bar(),
            message_bar: self.draw_message_bar(now),
            cursor: Position { x: at.x.saturating_sub(offset.x), y: at.y.saturating_sub(offset.y) },
        }
    }
}

} // verus!
