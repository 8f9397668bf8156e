//! The controller: cursor and viewport, status message, prompts and quit
//! confirmation, as a machine that takes one key at a time.

use crate::document::{erased, joined, lines_of, past, sought, typed, Document};
use crate::text::{decimal, decimal_string};
use crate::key::Key;
use crate::position::Position;
use crate::segment::clusters;
use vstd::prelude::*;

verus! {

/// How many extra presses of the quit key a changed document asks for.
pub const QUIT_TIMES: u8 = 2;

/// How long a status message stays on screen, in milliseconds.
pub const MESSAGE_MILLIS: u64 = 5000;

/// The size of the text area, in character cells.
#[derive(Clone, Copy, Debug, PartialEq, Eq, Structural)]
pub struct Size {
    pub width: u16,
    pub height: u16,
}

/// Which line of input the editor is collecting, if any.
#[derive(Clone, Copy, Debug, PartialEq, Eq, Structural)]
pub enum Mode {
    /// Keys edit the document.
    Edit,
    /// Keys spell the name to save the document under.
    SaveAs,
    /// Keys spell what to search for.
    Search,
}

/// A notice for the message line, with the time it was made at.
pub struct StatusMessage {
    text: String,
    time: u64,
}

/// Whether a message made at `time` is still shown at `now`.
pub open spec fn shown_at(time: u64, now: u64) -> bool {
    now < time || now - time < MESSAGE_MILLIS
}

impl StatusMessage {
    pub closed spec fn text(&self) -> Seq<char> {
        self.text@
    }

    pub closed spec fn time(&self) -> u64 {
        self.time
    }

    /// A message made at `now`, in milliseconds on the caller's clock.
    pub fn from(message: String, now: u64) -> (made: StatusMessage)
        ensures
            made.text() == message@,
            made.time() == now,
    {
        StatusMessage { text: message, time: now }
    }

    pub fn as_str(&self) -> (text: &str)
        ensures
            text@ == self.text(),
    {
        self.text.as_str()
    }

    /// Whether the message is still to be shown at `now`: for five seconds
    /// after it was made.
    pub fn is_visible(&self, now: u64) -> (visible: bool)
        ensures
            visible == shown_at(self.time(), now),
    {
        now < self.time || now - self.time < MESSAGE_MILLIS
    }
}

/// All that the editor knows, as plain values.
pub struct State {
    pub lines: Seq<Seq<char>>,
    pub name: Option<Seq<char>>,
    pub dirty: bool,
    pub anchor: Position,
    pub cursor: Position,
    pub offset: Position,
    pub size: Size,
    pub status: Seq<char>,
    pub status_time: u64,
    pub quit_times: u8,
    pub should_quit: bool,
    pub mode: Mode,
    pub input: Seq<char>,
    pub hit: bool,
}

/// What the editor asks of its surroundings after a key.
pub enum Action {
    /// Nothing but to draw the screen again.
    Redraw,
    /// Write `text` to the file `path`, then report the outcome to `save`.
    Write { path: String, text: String },
}

/// The number of graphemes of row `y`; none for a row past the end.
pub open spec fn width_of(lines: Seq<Seq<char>>, y: int) -> int {
    if 0 <= y < lines.len() {
        clusters(lines[y]).len() as int
    } else {
        0
    }
}

/// The smaller of two numbers.
pub open spec fn least(a: int, b: int) -> int {
    if a < b {
        a
    } else {
        b
    }
}

/// Where a key takes the cursor before the column is pulled back into the
/// row. `page` is the height of the text area.
pub open spec fn stepped(lines: Seq<Seq<char>>, cursor: Position, page: int, key: Key) -> (int, int) {
    let x = cursor.x as int;
    let y = cursor.y as int;
    let rows = lines.len() as int;
    match key {
        Key::Up => (x, if y > 0 {
            y - 1
        } else {
            0
        }),
        Key::Down => (x, least(rows, y + 1)),
        Key::Left => if x > 0 {
            (x - 1, y)
        } else if y > 0 {
            (width_of(lines, y - 1), y - 1)
        } else {
            (x, y)
        },
        Key::Right => if x < width_of(lines, y) {
            (x + 1, y)
        } else if y < rows {
            (0, y + 1)
        } else {
            (x, y)
        },
        Key::PageUp => (x, if y > page {
            y - page
        } else {
            0
        }),
        Key::PageDown => (x, least(rows, y + page)),
        Key::Home => (0, y),
        Key::End => (width_of(lines, y), y),
        _ => (x, y),
    }
}

/// Where a key takes the cursor: the step the key stands for, then the
/// column pulled back to the end of the row the cursor is in now.
pub open spec fn moved(lines: Seq<Seq<char>>, cursor: Position, page: int, key: Key) -> Position {
    let (x, y) = stepped(lines, cursor, page, key);
    Position { x: least(x, width_of(lines, y)) as usize, y: y as usize }
}

/// The first visible index after one scroll step along one axis: the cursor
/// itself where it lies before the window, one further where it lies at or
/// past the window's end, and unchanged where it is in view.
pub open spec fn slid(first: usize, cursor: usize, extent: usize) -> usize {
    if cursor < first {
        cursor
    } else if cursor >= least(first + extent, usize::MAX as int) {
        least(first + 1, usize::MAX as int) as usize
    } else {
        first
    }
}

/// The scroll offset after one scroll step.
pub open spec fn scrolled(offset: Position, cursor: Position, size: Size) -> Position {
    Position {
        x: slid(offset.x, cursor.x, size.width as usize),
        y: slid(offset.y, cursor.y, size.height as usize),
    }
}

/// The help line.
pub open spec fn help() -> Seq<char> {
    "HELP: Ctrl-F = find | Ctrl-S = save | Ctrl-Q = quit"@
}

/// The warning shown when the quit key meets unsaved changes.
pub open spec fn warning(left: u8) -> Seq<char> {
    "WARNING! File has unsaved changes. Press Ctrl-Q "@ + decimal(left as nat)
        + " more times to quit."@
}

/// What a prompt shows before the input.
pub open spec fn prompt_text(mode: Mode) -> Seq<char> {
    match mode {
        Mode::Edit => Seq::empty(),
        Mode::SaveAs => "Save as: "@,
        Mode::Search => "Search: "@,
    }
}

/// Control characters: U+0000 to U+001F and U+007F to U+009F.
pub open spec fn is_control(c: char) -> bool {
    c as u32 <= 0x1f || (0x7f <= c as u32 && c as u32 <= 0x9f)
}

/// The state with a new message, made at `now`.
pub open spec fn with_status(state: State, text: Seq<char>, now: u64) -> State {
    State { status: text, status_time: now, ..state }
}

/// The state after the cursor moved as `key` says.
pub open spec fn with_move(state: State, key: Key) -> State {
    State { cursor: moved(state.lines, state.cursor, state.size.height as int, key), ..state }
}

/// The state after `c` was typed at the cursor.
pub open spec fn with_typed(state: State, c: char) -> State {
    State { lines: typed(state.lines, state.cursor, c), dirty: true, ..state }
}

/// The state after a delete at the cursor.
pub open spec fn with_erased(state: State) -> State {
    State { lines: erased(state.lines, state.cursor), dirty: true, ..state }
}

/// What follows every command but the quit key: one scroll step, and the
/// quit confirmation starts over, which also clears the message.
pub open spec fn settled(state: State, now: u64) -> State {
    let state = State { offset: scrolled(state.offset, state.cursor, state.size), ..state };
    if state.quit_times < QUIT_TIMES {
        State { quit_times: QUIT_TIMES, status: Seq::empty(), status_time: now, ..state }
    } else {
        state
    }
}

/// The state after the quit key. While presses are left and the document
/// has changes, a press is used up and the warning shown; else the editor
/// is to quit.
pub open spec fn quit_pressed(state: State, now: u64) -> State {
    if state.quit_times > 0 && state.dirty {
        State {
            status: warning(state.quit_times),
            status_time: now,
            quit_times: (state.quit_times - 1) as u8,
            ..state
        }
    } else {
        State { should_quit: true, ..state }
    }
}

/// The state with a prompt just opened.
pub open spec fn prompting(state: State, mode: Mode, now: u64) -> State {
    State {
        mode,
        input: Seq::empty(),
        hit: false,
        status: prompt_text(mode),
        status_time: now,
        ..state
    }
}

/// The input after a key: Backspace takes the last character off, a
/// character that is no control character is added, other keys change
/// nothing.
pub open spec fn spelled(input: Seq<char>, key: Key) -> Seq<char> {
    match key {
        Key::Backspace => if input.len() > 0 {
            input.drop_last()
        } else {
            input
        },
        Key::Char(c) => if is_control(c) {
            input
        } else {
            input.push(c)
        },
        _ => input,
    }
}

/// The state after the search that follows each key of a search prompt:
/// a match takes the cursor and the anchor, and the window follows by one
/// scroll step.
pub open spec fn looked_up(state: State, query: Seq<char>) -> State {
    match sought(state.lines, state.anchor, query) {
        Some(at) => State {
            cursor: at,
            anchor: past(at),
            offset: scrolled(state.offset, at, state.size),
            hit: true,
            ..state
        },
        None => State { hit: false, ..state },
    }
}

/// The state after a key that goes into the prompt's input: the input
/// changes as the key says, a search prompt looks the input up, and the
/// message shows the prompt with the input.
pub open spec fn spelling(state: State, key: Key, now: u64) -> State {
    let input = spelled(state.input, key);
    let state = State { input, ..state };
    let state = if state.mode == Mode::Search {
        looked_up(state, input)
    } else {
        state
    };
    with_status(state, prompt_text(state.mode) + input, now)
}

/// The state after a prompt ended with `input`, and whether a write is
/// asked for. A search keeps the cursor where the last match put it and
/// says so where there was none; a name makes the document's name and asks
/// for the write; no input at all ends a search silently and aborts a save.
pub open spec fn answered(state: State, input: Seq<char>, now: u64) -> (State, bool) {
    let closed = State {
        mode: Mode::Edit,
        input: Seq::empty(),
        status: Seq::empty(),
        status_time: now,
        ..state
    };
    match state.mode {
        Mode::Edit => (closed, false),
        Mode::Search => if input.len() == 0 || state.hit {
            (settled(closed, now), false)
        } else {
            (settled(with_status(closed, "Not found :"@ + input, now), now), false)
        },
        Mode::SaveAs => if input.len() == 0 {
            (settled(with_status(closed, "Save aborted"@, now), now), false)
        } else {
            (State { name: Some(input), ..closed }, true)
        },
    }
}

/// The state after a key while a prompt is open, and whether a write is
/// asked for. Enter accepts the input, Escape discards it.
pub open spec fn prompted(state: State, key: Key, now: u64) -> (State, bool) {
    if key == Key::Char('\n') {
        answered(state, state.input, now)
    } else if key == Key::Esc {
        answered(state, Seq::empty(), now)
    } else {
        (spelling(state, key, now), false)
    }
}

/// The state after a key while the document is edited, and whether a write
/// is asked for.
pub open spec fn edited(state: State, key: Key, now: u64) -> (State, bool) {
    match key {
        Key::Ctrl(c) => if c == 'q' {
            (quit_pressed(state, now), false)
        } else if c == 'f' {
            (prompting(state, Mode::Search, now), false)
        } else if c == 's' {
            if state.name is None {
                (prompting(state, Mode::SaveAs, now), false)
            } else {
                (state, true)
            }
        } else if c == 'h' {
            (settled(with_status(state, help(), now), now), false)
        } else {
            (settled(state, now), false)
        },
        Key::Char(c) => (settled(with_move(with_typed(state, c), Key::Right), now), false),
        Key::Delete => (settled(with_erased(state), now), false),
        Key::Backspace => if state.cursor.x > 0 || state.cursor.y > 0 {
            (settled(with_erased(with_move(state, Key::Left)), now), false)
        } else {
            (settled(state, now), false)
        },
        Key::Esc | Key::Other => (settled(state, now), false),
        _ => (settled(with_move(state, key), now), false),
    }
}

/// The state after a key, and whether a write is asked for.
pub open spec fn pressed(state: State, key: Key, now: u64) -> (State, bool) {
    if state.mode == Mode::Edit {
        edited(state, key, now)
    } else {
        prompted(state, key, now)
    }
}

/// The state after the outcome of a write was reported: a write that
/// succeeded leaves the document clean, and either way a message says how it
/// went.
pub open spec fn saved(state: State, written: bool, now: u64) -> State {
    settled(
        State {
            dirty: state.dirty && !written,
            status: if written {
                "File saved succesfully"@
            } else {
                "Error writing file."@
            },
            status_time: now,
            ..state
        },
        now,
    )
}

/// The state the editor starts in. With no file named, or with a file that
/// could not be read, the document is empty and unnamed; the message is the
/// help line, or says which file could not be opened.
pub open spec fn started(
    file_name: Option<Seq<char>>,
    read: Option<Seq<char>>,
    size: Size,
    now: u64,
) -> State {
    let opened = file_name is Some && read is Some;
    State {
        lines: if opened {
            lines_of(read->Some_0)
        } else {
            Seq::empty()
        },
        name: if opened {
            file_name
        } else {
            None
        },
        dirty: false,
        anchor: Position { x: 0, y: 0 },
        cursor: Position { x: 0, y: 0 },
        offset: Position { x: 0, y: 0 },
        size,
        status: if file_name is Some && read is None {
            "ERR: Could not open file: "@ + file_name->Some_0
        } else {
            help()
        },
        status_time: now,
        quit_times: QUIT_TIMES,
        should_quit: false,
        mode: Mode::Edit,
        input: Seq::empty(),
        hit: false,
    }
}

/// The state after the keys are taken in order, how many of them were
/// taken, and whether a write is asked for. Keys are taken until the editor
/// is to quit or asks for a write.
pub open spec fn replayed(state: State, keys: Seq<Key>, now: u64) -> (State, int, bool)
    decreases keys.len(),
{
    if keys.len() == 0 || state.should_quit {
        (state, 0, false)
    } else {
        let (next, write) = pressed(state, keys[0], now);
        if write {
            (next, 1, true)
        } else {
            let rest = replayed(next, keys.skip(1), now);
            (rest.0, rest.1 + 1, rest.2)
        }
    }
}

/// The first visible index after `steps` scroll steps along one axis.
pub open spec fn slid_times(first: usize, cursor: usize, extent: usize, steps: nat) -> usize
    decreases steps,
{
    if steps == 0 {
        first
    } else {
        slid_times(slid(first, cursor, extent), cursor, extent, (steps - 1) as nat)
    }
}

/// The scroll offset after `steps` scroll steps.
pub open spec fn scrolled_times(offset: Position, cursor: Position, size: Size, steps: nat) -> Position
    decreases steps,
{
    if steps == 0 {
        offset
    } else {
        scrolled_times(scrolled(offset, cursor, size), cursor, size, (steps - 1) as nat)
    }
}

/// Whether the window that begins at `first` shows `cursor`.
pub open spec fn shows(first: usize, cursor: usize, extent: usize) -> bool {
    first <= cursor < first + extent
}

/// How many scroll steps bring `cursor` into the window along one axis.
pub open spec fn steps_to(first: usize, cursor: usize, extent: usize) -> nat {
    if cursor < first {
        1
    } else if cursor >= first + extent {
        (cursor - (first + extent) + 1) as nat
    } else {
        0
    }
}

/// One scroll step: the window snaps to a cursor that lies before it, moves
/// by at most one towards a cursor that lies behind it, and stays where it
/// shows the cursor.
pub proof fn lemma_scroll_step(offset: Position, cursor: Position, size: Size)
    ensures
        cursor.y < offset.y ==> scrolled(offset, cursor, size).y == cursor.y,
        cursor.x < offset.x ==> scrolled(offset, cursor, size).x == cursor.x,
        cursor.y >= offset.y ==> offset.y <= scrolled(offset, cursor, size).y <= offset.y + 1,
        cursor.x >= offset.x ==> offset.x <= scrolled(offset, cursor, size).x <= offset.x + 1,
        cursor.y >= offset.y + size.height && offset.y < usize::MAX ==> scrolled(
            offset,
            cursor,
            size,
        ).y == offset.y + 1,
        cursor.x >= offset.x + size.width && offset.x < usize::MAX ==> scrolled(
            offset,
            cursor,
            size,
        ).x == offset.x + 1,
        shows(offset.y, cursor.y, size.height as usize) && cursor.y < usize::MAX ==> scrolled(
            offset,
            cursor,
            size,
        ).y == offset.y,
        shows(offset.x, cursor.x, size.width as usize) && cursor.x < usize::MAX ==> scrolled(
            offset,
            cursor,
            size,
        ).x == offset.x,
{
}

/// Along one axis, enough scroll steps bring the cursor into the window,
/// and there the window rests.
pub proof fn lemma_slide_settles(first: usize, cursor: usize, extent: usize, steps: nat)
    requires
        extent > 0,
        cursor < usize::MAX,
        steps >= steps_to(first, cursor, extent),
    ensures
        shows(slid_times(first, cursor, extent, steps), cursor, extent),
        slid(slid_times(first, cursor, extent, steps), cursor, extent) == slid_times(
            first,
            cursor,
            extent,
            steps,
        ),
    decreases steps,
{
    if steps > 0 {
        let next = slid(first, cursor, extent);
        assert(steps_to(next, cursor, extent) <= steps - 1);
        lemma_slide_settles(next, cursor, extent, (steps - 1) as nat);
    }
}

/// Scrolling goes along the two axes independently.
pub proof fn lemma_scroll_by_axis(offset: Position, cursor: Position, size: Size, steps: nat)
    ensures
        scrolled_times(offset, cursor, size, steps) == (Position {
            x: slid_times(offset.x, cursor.x, size.width as usize, steps),
            y: slid_times(offset.y, cursor.y, size.height as usize, steps),
        }),
    decreases steps,
{
    if steps > 0 {
        lemma_scroll_by_axis(scrolled(offset, cursor, size), cursor, size, (steps - 1) as nat);
    }
}

/// Repeated scrolling after the cursor jumped comes to rest: after as many
/// steps as the cursor lies outside the window, the window shows the cursor
/// and further steps change nothing.
pub proof fn lemma_scroll_converges(offset: Position, cursor: Position, size: Size, steps: nat)
    requires
        size.width > 0,
        size.height > 0,
        cursor.x < usize::MAX,
        cursor.y < usize::MAX,
        steps >= steps_to(offset.x, cursor.x, size.width as usize),
        steps >= steps_to(offset.y, cursor.y, size.height as usize),
    ensures
        ({
            let rest = scrolled_times(offset, cursor, size, steps);
            &&& shows(rest.x, cursor.x, size.width as usize)
            &&& shows(rest.y, cursor.y, size.height as usize)
            &&& scrolled(rest, cursor, size) == rest
        }),
{
    lemma_scroll_by_axis(offset, cursor, size, steps);
    lemma_slide_settles(offset.x, cursor.x, size.width as usize, steps);
    lemma_slide_settles(offset.y, cursor.y, size.height as usize, steps);
}

/// After a move the cursor's column lies within the row it is in.
pub proof fn lemma_move_stays_in_row(lines: Seq<Seq<char>>, cursor: Position, page: int, key: Key)
    requires
        lines.len() <= usize::MAX,
        forall|y: int| 0 <= y < lines.len() ==> clusters(#[trigger] lines[y]).len() <= usize::MAX,
        cursor.y <= lines.len(),
        0 <= page,
    ensures
        moved(lines, cursor, page, key).x <= width_of(lines, moved(lines, cursor, page, key).y as int),
        moved(lines, cursor, page, key).y <= lines.len(),
{
}

/// After any move the cursor's column lies within the row the cursor is in,
/// a row below the last one counting as empty, and the cursor is no further
/// down than just below the last row.
pub proof fn lemma_move_keeps_cursor_in_row(editor: Editor, key: Key)
    requires
        editor.wf(),
    ensures
        with_move(editor@, key).cursor.x <= width_of(
            editor@.lines,
            with_move(editor@, key).cursor.y as int,
        ),
        with_move(editor@, key).cursor.y <= editor@.lines.len(),
{
    editor.lemma_wf();
    editor.doc().lemma_rows();
    assert forall|y: int| 0 <= y < editor@.lines.len() implies clusters(
        #[trigger] editor@.lines[y],
    ).len() <= usize::MAX by {
        editor.doc().rows()[y].lemma_wf();
    }
    lemma_move_stays_in_row(editor@.lines, editor@.cursor, editor@.size.height as int, key);
}

/// Right at the end of a row goes to the start of the next row, and Left
/// from there comes back to the end of the row above.
pub proof fn lemma_right_then_left(lines: Seq<Seq<char>>, cursor: Position, page: int)
    requires
        lines.len() <= usize::MAX,
        forall|y: int| 0 <= y < lines.len() ==> clusters(#[trigger] lines[y]).len() <= usize::MAX,
        cursor.y < lines.len(),
        cursor.x == width_of(lines, cursor.y as int),
    ensures
        moved(lines, cursor, page, Key::Right) == (Position { x: 0, y: (cursor.y + 1) as usize }),
        moved(lines, moved(lines, cursor, page, Key::Right), page, Key::Left) == cursor,
{
}

/// Quitting with unsaved changes takes three presses of the quit key in a
/// row: the first two only warn and use up a press each, the third quits.
/// A character typed in between makes the count start over.
pub proof fn lemma_quit_confirmation(state: State, c: char, first: u64, second: u64, third: u64)
    requires
        state.mode == Mode::Edit,
        state.dirty,
        state.quit_times == QUIT_TIMES,
        !state.should_quit,
    ensures
        ({
            let quit = Key::Ctrl('q');
            let one = pressed(state, quit, first).0;
            let two = pressed(one, quit, second).0;
            let three = pressed(two, quit, third).0;
            &&& !one.should_quit && one.quit_times == 1 && one.status == warning(2)
            &&& !two.should_quit && two.quit_times == 0 && two.status == warning(1)
            &&& three.should_quit
            &&& pressed(one, Key::Char(c), second).0.quit_times == QUIT_TIMES
            &&& pressed(two, Key::Char(c), third).0.quit_times == QUIT_TIMES
            &&& !pressed(one, Key::Char(c), second).0.should_quit
            &&& !pressed(two, Key::Char(c), third).0.should_quit
        }),
{
}

/// The editor's state: the document, where the cursor and the window are,
/// the message on show, and how the quit confirmation and the prompt stand.
pub struct Editor {
    document: Document,
    should_quit: bool,
    size: Size,
    cursor_position: Position,
    offset: Position,
    status_message: StatusMessage,
    quit_times: u8,
    mode: Mode,
    input: String,
    hit: bool,
}

impl View for Editor {
    type V = State;

    closed spec fn view(&self) -> State {
        State {
            lines: self.document@,
            name: self.document.name(),
            dirty: self.document.dirty(),
            anchor: self.document.anchor(),
            cursor: self.cursor_position,
            offset: self.offset,
            size: self.size,
            status: self.status_message.text(),
            status_time: self.status_message.time(),
            quit_times: self.quit_times,
            should_quit: self.should_quit,
            mode: self.mode,
            input: self.input@,
            hit: self.hit,
        }
    }
}

impl Editor {
    /// The document is well formed and the cursor is in a row of it, or
    /// just below the last one.
    pub closed spec fn wf(&self) -> bool {
        &&& self.document.wf()
        &&& self.cursor_position.y <= self.document@.len()
    }

    /// The document as a value.
    pub closed spec fn doc(&self) -> Document {
        self.document
    }

    /// What `wf` says in terms of the state.
    pub proof fn lemma_wf(&self)
        requires
            self.wf(),
        ensures
            self.doc().wf(),
            self.doc()@ == self@.lines,
            self@.cursor.y <= self@.lines.len(),
    {
    }

    pub fn document(&self) -> (document: &Document)
        ensures
            *document == self.doc(),
            document@ == self@.lines,
            document.name() == self@.name,
            document.dirty() == self@.dirty,
            document.anchor() == self@.anchor,
    {
        &self.document
    }

    pub fn cursor_position(&self) -> (cursor: Position)
        ensures
            cursor == self@.cursor,
    {
        self.cursor_position
    }

    pub fn offset(&self) -> (offset: Position)
        ensures
            offset == self@.offset,
    {
        self.offset
    }

    pub fn size(&self) -> (size: Size)
        ensures
            size == self@.size,
    {
        self.size
    }

    pub fn status_message(&self) -> (message: &StatusMessage)
        ensures
            message.text() == self@.status,
            message.time() == self@.status_time,
    {
        &self.status_message
    }

    pub fn quit_times(&self) -> (left: u8)
        ensures
            left == self@.quit_times,
    {
        self.quit_times
    }

    pub fn should_quit(&self) -> (quit: bool)
        ensures
            quit == self@.should_quit,
    {
        self.should_quit
    }

    pub fn mode(&self) -> (mode: Mode)
        ensures
            mode == self@.mode,
    {
        self.mode
    }

    /// Tells the editor the size of the text area.
    pub fn resize(&mut self, size: Size)
        ensures
            final(self)@ == (State { size, ..old(self)@ }),
            final(self).wf() == old(self).wf(),
            final(self).doc() == old(self).doc(),
    {
        self.size = size;
    }

    /// The number of graphemes of row `y`; none for a row past the end.
    fn row_len(&self, y: usize) -> (width: usize)
        requires
            self.wf(),
        ensures
            width == width_of(self@.lines, y as int),
    {
        proof {
            self.document.lemma_rows();
        }
        match self.document.row(y) {
            Some(row) => row.len(),
            None => 0,
        }
    }

    /// Moves the cursor as `key` says and pulls its column back into the
    /// row it ends in.
    pub fn move_cursor(&mut self, key: Key)
        requires
            old(self).wf(),
        ensures
            final(self).wf(),
            final(self).doc() == old(self).doc(),
            final(self)@ == (State {
                cursor: moved(
                    old(self)@.lines,
                    old(self)@.cursor,
                    old(self)@.size.height as int,
                    key,
                ),
                ..old(self)@
            }),
            final(self)@.cursor.x <= width_of(final(self)@.lines, final(self)@.cursor.y as int),
    {
        proof {
            self.document.lemma_rows();
        }
        let page: usize = self.size.height as usize;
        let Position { x: mut x, y: mut y } = self.cursor_position;
        let rows = self.document.len();
        let width = self.row_len(y);
        match key {
            Key::Up => {
                if y > 0 {
                    y = y - 1;
                }
            },
            Key::Down => {
                if y < rows {
                    y = y + 1;
                }
            },
            Key::Left => {
                if x > 0 {
                    x = x - 1;
                } else if y > 0 {
                    y = y - 1;
                    x = self.row_len(y);
                }
            },
            Key::Right => {
                if x < width {
                    x = x + 1;
                } else if y < rows {
                    y = y + 1;
                    x = 0;
                }
            },
            Key::PageUp => {
                y = if y > page {
                    y - page
                } else {
                    0
                };
            },
            Key::PageDown => {
                y = if page < rows - y {
                    y + page
                } else {
                    rows
                };
            },
            Key::Home => {
                x = 0;
            },
            Key::End => {
                x = width;
            },
            _ => {},
        }
        let width = self.row_len(y);
        if x > width {
            x = width;
        }
        self.cursor_position = Position { x, y };
    }

    /// Starts the editor. `file_name` is the file named on the command line,
    /// if one was, and `read` what was read from it: `None` where it is
    /// missing or unreadable.
    pub fn default(file_name: Option<&str>, read: Option<&str>, size: Size, now: u64) -> (editor:
        Editor)
        ensures
            editor.wf(),
            editor@ == started(
                match file_name {
                    Some(name) => Some(name@),
                    None => None,
                },
                match read {
                    Some(text) => Some(text@),
                    None => None,
                },
                size,
                now,
            ),
    {
        let mut initial_status = String::from_str(
            "HELP: Ctrl-F = find | Ctrl-S = save | Ctrl-Q = quit",
        );
        let document = match file_name {
            Some(name) => match Document::open(name, read) {
                Ok(document) => document,
                Err(_) => {
                    initial_status = String::from_str("ERR: Could not open file: ");
                    initial_status.append(name);
                    Document::default()
                },
            },
            None => Document::default(),
        };
        Editor {
            should_quit: false,
            size,
            cursor_position: Position { x: 0, y: 0 },
            document,
            offset: Position { x: 0, y: 0 },
            status_message: StatusMessage::from(initial_status, now),
            quit_times: QUIT_TIMES,
            mode: Mode::Edit,
            input: String::new(),
            hit: false,
        }
    }

    /// What follows every command but the quit key.
    fn settle(&mut self, now: u64)
        ensures
            final(self).wf() == old(self).wf(),
            final(self).doc() == old(self).doc(),
            final(self)@ == settled(old(self)@, now),
    {
        self.scroll();
        if self.quit_times < QUIT_TIMES {
            self.quit_times = QUIT_TIMES;
            self.status_message = StatusMessage::from(String::new(), now);
        }
    }

    /// What is to be written: the document's text and the file it goes to.
    fn write(&self) -> (action: Action)
        requires
            self@.name is Some,
        ensures
            action matches Action::Write { path, text } && path@ == self@.name->Some_0 && text@
                == joined(self@.lines),
    {
        let path = match self.document.file_name() {
            Some(name) => String::from_str(name),
            None => String::new(),
        };
        Action::Write { path, text: self.document.contents() }
    }

    /// Takes the outcome of the write that the editor asked for.
    pub fn save(&mut self, written: bool, now: u64)
        ensures
            final(self).wf() == old(self).wf(),
            final(self)@ == saved(old(self)@, written, now),
    {
        let message = match self.document.save(written) {
            Ok(_) => String::from_str("File saved succesfully"),
            Err(_) => String::from_str("Error writing file."),
        };
        self.status_message = StatusMessage::from(message, now);
        self.settle(now);
    }

    /// Ends the prompt with `input`.
    fn answer(&mut self, input: String, now: u64) -> (action: Action)
        requires
            old(self).wf(),
        ensures
            final(self).wf(),
            final(self)@ == answered(old(self)@, input@, now).0,
            match action {
                Action::Write { path, text } => answered(old(self)@, input@, now).1
                    && final(self)@.name is Some && path@ == final(self)@.name->Some_0 && text@
                    == joined(final(self)@.lines),
                Action::Redraw => !answered(old(self)@, input@, now).1,
            },
    {
        let mode = self.mode;
        let empty = input.as_str().unicode_len() == 0;
        self.mode = Mode::Edit;
        self.input = String::new();
        self.status_message = StatusMessage::from(String::new(), now);
        match mode {
            Mode::Edit => Action::Redraw,
            Mode::Search => {
                if !empty && !self.hit {
                    let mut message = String::from_str("Not found :");
                    message.append(input.as_str());
                    self.status_message = StatusMessage::from(message, now);
                }
                self.settle(now);
                Action::Redraw
            },
            Mode::SaveAs => {
                if empty {
                    self.status_message = StatusMessage::from(String::from_str("Save aborted"), now);
                    self.settle(now);
                    Action::Redraw
                } else {
                    self.document.set_file_name(input);
                    self.write()
                }
            },
        }
    }

    /// Takes a key while a prompt is open.
    pub fn prompt(&mut self, key: Key, now: u64) -> (action: Action)
        requires
            old(self).wf(),
        ensures
            final(self).wf(),
            final(self)@ == prompted(old(self)@, key, now).0,
            match action {
                Action::Write { path, text } => prompted(old(self)@, key, now).1
                    && final(self)@.name is Some && path@ == final(self)@.name->Some_0 && text@
                    == joined(final(self)@.lines),
                Action::Redraw => !prompted(old(self)@, key, now).1,
            },
    {
        match key {
            Key::Char(c) => {
                if c == '\n' {
                    let input = self.input.clone();
                    return self.answer(input, now);
                }
                if !(c as u32 <= 0x1f || (0x7f <= c as u32 && c as u32 <= 0x9f)) {
                    self.input.push(c);
                }
            },
            Key::Esc => {
                return self.answer(String::new(), now);
            },
            Key::Backspace => {
                self.input.pop();
            },
            _ => {},
        }
        if self.mode == Mode::Search {
            match self.document.find(self.input.as_str()) {
                Some(at) => {
                    self.cursor_position = at;
                    self.hit = true;
                    self.scroll();
                },
                None => {
                    self.hit = false;
                },
            }
        }
        let mut message = String::from_str(prompt_for(self.mode));
        message.append(self.input.as_str());
        self.status_message = StatusMessage::from(message, now);
        Action::Redraw
    }

    /// Opens a prompt.
    fn open_prompt(&mut self, mode: Mode, now: u64)
        ensures
            final(self).wf() == old(self).wf(),
            final(self)@ == prompting(old(self)@, mode, now),
    {
        self.mode = mode;
        self.input = String::new();
        self.hit = false;
        self.status_message = StatusMessage::from(String::from_str(prompt_for(mode)), now);
    }

    /// Takes the quit key.
    fn quit(&mut self, now: u64)
        ensures
            final(self).wf() == old(self).wf(),
            final(self)@ == quit_pressed(old(self)@, now),
    {
        if self.quit_times > 0 && self.document.is_dirty() {
            let mut message = String::from_str("WARNING! File has unsaved changes. Press Ctrl-Q ");
            message.append(decimal_string(self.quit_times as usize).as_str());
            message.append(" more times to quit.");
            self.status_message = StatusMessage::from(message, now);
            self.quit_times = self.quit_times - 1;
        } else {
            self.should_quit = true;
        }
    }

    /// Takes one key and says what is to be done about it. `now` is the
    /// time of the key press, in milliseconds on the caller's clock.
    pub fn process_kepress(&mut self, key: Key, now: u64) -> (action: Action)
        requires
            old(self).wf(),
        ensures
            final(self).wf(),
            final(self)@ == pressed(old(self)@, key, now).0,
            match action {
                Action::Write { path, text } => pressed(old(self)@, key, now).1
                    && final(self)@.name is Some && path@ == final(self)@.name->Some_0 && text@
                    == joined(final(self)@.lines),
                Action::Redraw => !pressed(old(self)@, key, now).1,
            },
    {
        if self.mode != Mode::Edit {
            return self.prompt(key, now);
        }
        match key {
            Key::Ctrl(c) => {
                if c == 'q' {
                    self.quit(now);
                    return Action::Redraw;
                } else if c == 'f' {
                    self.open_prompt(Mode::Search, now);
                    return Action::Redraw;
                } else if c == 's' {
                    if self.document.file_name().is_none() {
                        self.open_prompt(Mode::SaveAs, now);
                        return Action::Redraw;
                    }
                    return self.write();
                } else if c == 'h' {
                    self.status_message = StatusMessage::from(
                        String::from_str("HELP: Ctrl-F = find | Ctrl-S = save | Ctrl-Q = quit"),
                        now,
                    );
                }
            },
            Key::Char(c) => {
                let at = self.cursor_position;
                self.document.insert(&at, c);
                self.move_cursor(Key::Right);
            },
            Key::Delete => {
                let at = self.cursor_position;
                self.document.delete(&at);
            },
            Key::Backspace => {
                if self.cursor_position.x > 0 || self.cursor_position.y > 0 {
                    self.move_cursor(Key::Left);
                    let at = self.cursor_position;
                    self.document.delete(&at);
                }
            },
            Key::Esc | Key::Other => {},
            _ => {
                self.move_cursor(key);
            },
        }
        self.settle(now);
        Action::Redraw
    }

    /// Takes the keys in order, each as `process_kepress` does, until the
    /// editor is to quit, asks for a write, or the keys run out. Gives the
    /// number of keys taken and what the last of them asked for.
    pub fn run(&mut self, keys: &Vec<Key>, now: u64) -> (outcome: (usize, Action))
        requires
            old(self).wf(),
        ensures
            final(self).wf(),
            final(self)@ == replayed(old(self)@, keys@, now).0,
            outcome.0 == replayed(old(self)@, keys@, now).1,
            match outcome.1 {
                Action::Write { path, text } => replayed(old(self)@, keys@, now).2
                    && final(self)@.name is Some && path@ == final(self)@.name->Some_0 && text@
                    == joined(final(self)@.lines),
                Action::Redraw => !replayed(old(self)@, keys@, now).2,
            },
    {
        let mut taken: usize = 0;
        proof {
            assert(keys@.skip(0) =~= keys@);
        }
        while taken < keys.len() && !self.should_quit
            invariant
                self.wf(),
                taken <= keys.len(),
                replayed(old(self)@, keys@, now) == ({
                    let rest = replayed(self@, keys@.skip(taken as int), now);
                    (rest.0, rest.1 + taken, rest.2)
                }),
            decreases keys.len() - taken,
        {
            proof {
                assert(keys@.skip(taken as int).skip(1) =~= keys@.skip(taken + 1));
            }
            let action = self.process_kepress(keys[taken], now);
            taken += 1;
            match action {
                Action::Write { path, text } => {
                    return (taken, Action::Write { path, text });
                },
                Action::Redraw => {},
            }
        }
        (taken, Action::Redraw)
    }

    /// Brings the window one step after the cursor: at once to a cursor
    /// that lies before it, by one row or column to a cursor that lies at or
    /// past its end.
    pub fn scroll(&mut self)
        ensures
            final(self).wf() == old(self).wf(),
            final(self).doc() == old(self).doc(),
            final(self)@ == (State {
                offset: scrolled(old(self)@.offset, old(self)@.cursor, old(self)@.size),
                ..old(self)@
            }),
    {
        let Position { x, y } = self.cursor_position;
        let width: usize = self.size.width as usize;
        let height: usize = self.size.height as usize;
        if y < self.offset.y {
            self.offset.y = y;
        } else if y >= self.offset.y.saturating_add(height) {
            self.offset.y = self.offset.y.saturating_add(1);
        }
        if x < self.offset.x {
            self.offset.x = x;
        } else if x >= self.offset.x.saturating_add(width) {
            self.offset.x = self.offset.x.saturating_add(1);
        }
    }
}

/// What a prompt shows before the input.
fn prompt_for(mode: Mode) -> (text: &'static str)
    ensures
        text@ == prompt_text(mode),
{
    match mode {
        Mode::Edit => {
            proof {
                reveal_strlit("");
                assert(""@ =~= Seq::<char>::empty());
            }
            ""
        },
        Mode::SaveAs => "Save as: ",
        Mode::Search => "Search: ",
    }
}

} // verus!
