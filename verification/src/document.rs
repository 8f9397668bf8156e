//! The text buffer: rows in document order, a dirty flag and a search anchor.

use crate::highlighting::categories;
use crate::position::Position;
use crate::row::{deleted, found, head, inserted, tail, Row};
use crate::segment::clusters;
use crate::text::chars_of;
use vstd::prelude::*;

verus! {

/// Why a document could not be opened.
#[derive(Clone, Copy, Debug, PartialEq, Eq, Structural)]
pub enum OpenError {
    /// The file is missing or could not be read.
    NotFound,
}

/// Why a document could not be saved.
#[derive(Clone, Copy, Debug, PartialEq, Eq, Structural)]
pub enum SaveError {
    /// The file could not be written.
    WriteFailed,
}

/// An ordered sequence of rows; the index of a row is its line number.
pub struct Document {
    rows: Vec<Row>,
    file_name: Option<String>,
    dirty: bool,
    anchor: Position,
}

/// A line without the carriage return that ends it, if one does.
pub open spec fn without_cr(line: Seq<char>) -> Seq<char> {
    if line.len() > 0 && line.last() == '\r' {
        line.drop_last()
    } else {
        line
    }
}

/// What follows the last newline of `text`.
pub open spec fn open_line(text: Seq<char>) -> Seq<char>
    decreases text.len(),
{
    if text.len() == 0 || text.last() == '\n' {
        Seq::empty()
    } else {
        open_line(text.drop_last()).push(text.last())
    }
}

/// The lines of `text` that a newline ends, each without its line ending
/// (a newline, or a carriage return and a newline).
pub open spec fn closed_lines(text: Seq<char>) -> Seq<Seq<char>>
    decreases text.len(),
{
    if text.len() == 0 {
        Seq::empty()
    } else if text.last() == '\n' {
        closed_lines(text.drop_last()).push(without_cr(open_line(text.drop_last())))
    } else {
        closed_lines(text.drop_last())
    }
}

/// The lines of a text: those that a newline ends, then what follows the
/// last newline unless that is empty.
pub open spec fn lines_of(text: Seq<char>) -> Seq<Seq<char>> {
    if open_line(text).len() == 0 {
        closed_lines(text)
    } else {
        closed_lines(text).push(open_line(text))
    }
}

/// The lines laid end to end with a newline between each two.
pub open spec fn joined(lines: Seq<Seq<char>>) -> Seq<char>
    decreases lines.len(),
{
    if lines.len() == 0 {
        Seq::empty()
    } else if lines.len() == 1 {
        lines[0]
    } else {
        joined(lines.drop_last()).push('\n') + lines.last()
    }
}

/// The lines after `c` is typed at `at`. A newline splits the row at the
/// column and puts the rest on a row of its own just below; any other
/// character goes into the row at the column. One row below the last row a
/// new row is begun; further down nothing changes.
pub open spec fn typed(lines: Seq<Seq<char>>, at: Position, c: char) -> Seq<Seq<char>> {
    let y = at.y as int;
    let x = at.x as int;
    if y > lines.len() {
        lines
    } else if c == '\n' {
        if y == lines.len() {
            lines.push(Seq::empty())
        } else {
            lines.update(y, head(lines[y], x)).insert(y + 1, tail(lines[y], x))
        }
    } else if y == lines.len() {
        lines.push(seq![c])
    } else {
        lines.update(y, inserted(lines[y], x, c))
    }
}

/// The lines after a delete at `at`. At the end of a row that has a row
/// below it, that row is joined onto this one; elsewhere the grapheme at the
/// column goes. Below the last row nothing changes.
pub open spec fn erased(lines: Seq<Seq<char>>, at: Position) -> Seq<Seq<char>> {
    let y = at.y as int;
    let x = at.x as int;
    if y >= lines.len() {
        lines
    } else if x == clusters(lines[y]).len() && y + 1 < lines.len() {
        lines.update(y, lines[y] + lines[y + 1]).remove(y + 1)
    } else {
        lines.update(y, deleted(lines[y], x))
    }
}

/// The match that a search of row `row` from column `after` gives.
pub open spec fn hit(lines: Seq<Seq<char>>, query: Seq<char>, row: int, after: int) -> Option<
    Position,
> {
    match found(lines[row], query, after) {
        Some(x) => Some(Position { x: x as usize, y: row as usize }),
        None => None,
    }
}

/// The match in the first of the rows `from..to` that has one, each row
/// searched from its start.
pub open spec fn first_hit(lines: Seq<Seq<char>>, query: Seq<char>, from: int, to: int) -> Option<
    Position,
>
    decreases to - from,
{
    if from < 0 || from >= to {
        None
    } else if hit(lines, query, from, 0) is Some {
        hit(lines, query, from, 0)
    } else {
        first_hit(lines, query, from + 1, to)
    }
}

/// The match that a search from `anchor` gives: the first one in the anchor
/// row at or after the anchor column; else the first one in a row further
/// down; else, starting over at the top, the first one in a row down to the
/// anchor row.
pub open spec fn sought(lines: Seq<Seq<char>>, anchor: Position, query: Seq<char>) -> Option<
    Position,
> {
    let n = lines.len() as int;
    let y = anchor.y as int;
    if y < n && hit(lines, query, y, anchor.x as int) is Some {
        hit(lines, query, y, anchor.x as int)
    } else if first_hit(lines, query, y + 1, n) is Some {
        first_hit(lines, query, y + 1, n)
    } else if y < n {
        first_hit(lines, query, 0, y + 1)
    } else {
        first_hit(lines, query, 0, n)
    }
}

/// Where the search goes on after a match at `at`: one column further.
pub open spec fn past(at: Position) -> Position {
    Position { x: (at.x + 1) as usize, y: at.y }
}

/// Where no row of `from..to` has a match, none of them has one.
pub proof fn lemma_first_hit_none(lines: Seq<Seq<char>>, query: Seq<char>, from: int, to: int)
    requires
        0 <= from,
        first_hit(lines, query, from, to) is None,
    ensures
        forall|r: int| from <= r < to ==> found(#[trigger] lines[r], query, 0) is None,
    decreases to - from,
{
    if from < to {
        lemma_first_hit_none(lines, query, from + 1, to);
    }
}

/// Where row `row` is the first of the rows `from..to` with a match, the
/// search of those rows gives that match.
pub proof fn lemma_first_hit_at(
    lines: Seq<Seq<char>>,
    query: Seq<char>,
    from: int,
    to: int,
    row: int,
)
    requires
        0 <= from <= row < to,
        forall|r: int| from <= r < row ==> found(#[trigger] lines[r], query, 0) is None,
        found(lines[row], query, 0) is Some,
    ensures
        first_hit(lines, query, from, to) == hit(lines, query, row, 0),
    decreases row - from,
{
    if from < row {
        assert(found(lines[from], query, 0) is None);
        lemma_first_hit_at(lines, query, from + 1, to, row);
    }
}

/// A search goes down from the anchor: where the anchor row has no match
/// from the anchor column on, the match is that of the first row below the
/// anchor that has one.
pub proof fn lemma_search_goes_down(
    lines: Seq<Seq<char>>,
    anchor: Position,
    query: Seq<char>,
    row: int,
)
    requires
        anchor.y < row < lines.len(),
        found(lines[anchor.y as int], query, anchor.x as int) is None,
        forall|r: int| anchor.y < r < row ==> found(#[trigger] lines[r], query, 0) is None,
        found(lines[row], query, 0) is Some,
    ensures
        sought(lines, anchor, query) == hit(lines, query, row, 0),
{
    lemma_first_hit_at(lines, query, anchor.y + 1, lines.len() as int, row);
}

/// A search that reaches the end starts over at the top: where neither the
/// rest of the anchor row nor any row below it has a match, the match is
/// that of the first row from the top, down to the anchor row, that has one.
pub proof fn lemma_search_wraps(
    lines: Seq<Seq<char>>,
    anchor: Position,
    query: Seq<char>,
    row: int,
)
    requires
        0 <= row <= anchor.y < lines.len(),
        found(lines[anchor.y as int], query, anchor.x as int) is None,
        forall|r: int| anchor.y < r < lines.len() ==> found(#[trigger] lines[r], query, 0) is None,
        forall|r: int| 0 <= r < row ==> found(#[trigger] lines[r], query, 0) is None,
        found(lines[row], query, 0) is Some,
    ensures
        sought(lines, anchor, query) == hit(lines, query, row, 0),
{
    lemma_first_hit_below_none(lines, query, anchor.y + 1, lines.len() as int);
    lemma_first_hit_at(lines, query, 0, anchor.y + 1, row);
}

/// Rows without a match give no match.
pub proof fn lemma_first_hit_below_none(lines: Seq<Seq<char>>, query: Seq<char>, from: int, to: int)
    requires
        0 <= from,
        forall|r: int| from <= r < to ==> found(#[trigger] lines[r], query, 0) is None,
    ensures
        first_hit(lines, query, from, to) is None,
    decreases to - from,
{
    if from < to {
        assert(found(lines[from], query, 0) is None);
        lemma_first_hit_below_none(lines, query, from + 1, to);
    }
}

/// A search gives nothing only where no row has a match, and a match it
/// gives lies in a row of the document.
pub proof fn lemma_search_complete(lines: Seq<Seq<char>>, anchor: Position, query: Seq<char>)
    ensures
        sought(lines, anchor, query) is None ==> forall|r: int|
            0 <= r < lines.len() ==> found(#[trigger] lines[r], query, 0) is None,
{
    let n = lines.len() as int;
    let y = anchor.y as int;
    if sought(lines, anchor, query) is None {
        if y < n {
            lemma_first_hit_none(lines, query, y + 1, n);
            lemma_first_hit_none(lines, query, 0, y + 1);
        } else {
            lemma_first_hit_none(lines, query, 0, n);
        }
    }
}

impl View for Document {
    type V = Seq<Seq<char>>;

    /// The content of each row, in order.
    closed spec fn view(&self) -> Seq<Seq<char>> {
        self.rows@.map_values(|row: Row| row@)
    }
}

impl Default for Document {
    /// An empty, unnamed document.
    fn default() -> (document: Document)
        ensures
            document.wf(),
            document@ == Seq::<Seq<char>>::empty(),
            document.name() is None,
            !document.dirty(),
            document.anchor() == (Position { x: 0, y: 0 }),
    {
        let document = Document {
            rows: Vec::new(),
            file_name: None,
            dirty: false,
            anchor: Position { x: 0, y: 0 },
        };
        proof {
            assert(document@ =~= Seq::<Seq<char>>::empty());
        }
        document
    }
}

impl Document {
    /// Every row is well formed and its colour categories are those of its
    /// content.
    pub closed spec fn wf(&self) -> bool {
        forall|i: int|
            0 <= i < self.rows@.len() ==> {
                &&& (#[trigger] self.rows@[i]).wf()
                &&& self.rows@[i].colors() == categories(self.rows@[i]@)
            }
    }

    /// Whether the content differs from what was last saved.
    pub closed spec fn dirty(&self) -> bool {
        self.dirty
    }

    /// Where the next search starts.
    pub closed spec fn anchor(&self) -> Position {
        self.anchor
    }

    /// The name of the file the document belongs to, if it has one.
    pub closed spec fn name(&self) -> Option<Seq<char>> {
        match self.file_name {
            Some(name) => Some(name@),
            None => None,
        }
    }

    /// The rows themselves.
    pub closed spec fn rows(&self) -> Seq<Row> {
        self.rows@
    }

    /// How the rows relate to the view.
    pub proof fn lemma_rows(&self)
        ensures
            self.rows().len() == self@.len(),
            self@.len() <= usize::MAX,
            forall|i: int| 0 <= i < self@.len() ==> (#[trigger] self.rows()[i])@ == self@[i],
            self.wf() ==> forall|i: int|
                0 <= i < self@.len() ==> (#[trigger] self.rows()[i]).wf() && self.rows()[i].colors()
                    == categories(self@[i]),
    {
        assert(self.rows@.len() == self.rows.len());
    }

    /// Builds a document from what was read from the file `file_name`:
    /// `None` where the file is missing or unreadable, else its text, which
    /// becomes one row per line.
    pub fn open(file_name: &str, read: Option<&str>) -> (opened: Result<Document, OpenError>)
        ensures
            read is None <==> opened is Err,
            opened is Err ==> opened->Err_0 == OpenError::NotFound,
            opened is Ok ==> {
                let document = opened->Ok_0;
                &&& document.wf()
                &&& document@ == lines_of(read->Some_0@)
                &&& document.name() == Some(file_name@)
                &&& !document.dirty()
                &&& document.anchor() == (Position { x: 0, y: 0 })
            },
    {
        let text = match read {
            Some(text) => text,
            None => {
                return Err(OpenError::NotFound);
            },
        };
        let chars = chars_of(text);
        let mut rows: Vec<Row> = Vec::new();
        let mut line = String::new();
        let mut i: usize = 0;
        let ghost show = |row: Row| row@;
        proof {
            assert(chars@.take(0) =~= Seq::<char>::empty());
            assert(rows@.map_values(show) =~= Seq::<Seq<char>>::empty());
        }
        while i < chars.len()
            invariant
                i <= chars.len(),
                show == |row: Row| row@,
                rows@.map_values(show) == closed_lines(chars@.take(i as int)),
                line@ == open_line(chars@.take(i as int)),
                forall|k: int|
                    0 <= k < rows@.len() ==> (#[trigger] rows@[k]).wf() && rows@[k].colors()
                        == categories(rows@[k]@),
            decreases chars.len() - i,
        {
            let c = chars[i];
            proof {
                assert(chars@.take(i + 1).drop_last() =~= chars@.take(i as int));
            }
            if c == '\n' {
                let ghost before = rows@;
                let row = finished(line.as_str());
                rows.push(row);
                line = String::new();
                proof {
                    assert(rows@.map_values(show) =~= before.map_values(show).push(row@));
                }
            } else {
                line.push(c);
            }
            i += 1;
        }
        proof {
            assert(chars@.take(chars.len() as int) =~= chars@);
        }
        if line.as_str().unicode_len() > 0 {
            let ghost before = rows@;
            let mut row = Row::from(line.as_str());
            row.highlight();
            rows.push(row);
            proof {
                assert(rows@.map_values(show) =~= before.map_values(show).push(row@));
            }
        }
        Ok(
            Document {
                rows,
                file_name: Some(String::from_str(file_name)),
                dirty: false,
                anchor: Position { x: 0, y: 0 },
            },
        )
    }

    /// The number of rows.
    pub fn len(&self) -> (n: usize)
        ensures
            n == self@.len(),
    {
        self.rows.len()
    }

    pub fn is_empty(&self) -> (empty: bool)
        ensures
            empty == (self@.len() == 0),
    {
        self.rows.len() == 0
    }

    /// Whether there are changes that were not saved.
    pub fn is_dirty(&self) -> (dirty: bool)
        ensures
            dirty == self.dirty(),
    {
        self.dirty
    }

    /// The row at line `index`, if the document has that many.
    pub fn row(&self, index: usize) -> (row: Option<&Row>)
        ensures
            row is Some <==> index < self@.len(),
            row is Some ==> *row->Some_0 == self.rows()[index as int] && row->Some_0@
                == self@[index as int],
    {
        if index < self.rows.len() {
            Some(&self.rows[index])
        } else {
            None
        }
    }

    /// The name of the file the document belongs to, if it has one.
    pub fn file_name(&self) -> (name: Option<&str>)
        ensures
            name is Some <==> self.name() is Some,
            name is Some ==> name->Some_0@ == self.name()->Some_0,
    {
        match &self.file_name {
            Some(name) => Some(name.as_str()),
            None => None,
        }
    }

    /// Names the file the document belongs to.
    pub fn set_file_name(&mut self, name: String)
        ensures
            final(self).name() == Some(name@),
            final(self)@ == old(self)@,
            final(self).rows() == old(self).rows(),
            final(self).wf() == old(self).wf(),
            final(self).dirty() == old(self).dirty(),
            final(self).anchor() == old(self).anchor(),
    {
        self.file_name = Some(name);
    }

    /// The whole text: the rows with a newline between each two.
    pub fn contents(&self) -> (text: String)
        ensures
            text@ == joined(self@),
    {
        let mut text = String::new();
        let mut i: usize = 0;
        let ghost show = |row: Row| row@;
        proof {
            assert(self@.take(0) =~= Seq::<Seq<char>>::empty());
        }
        while i < self.rows.len()
            invariant
                i <= self.rows.len(),
                show == |row: Row| row@,
                self@ == self.rows@.map_values(show),
                text@ == joined(self@.take(i as int)),
            decreases self.rows.len() - i,
        {
            if i > 0 {
                text.push('\n');
            }
            text.append(self.rows[i].as_str());
            proof {
                let lines = self@.take(i + 1);
                assert(lines.drop_last() =~= self@.take(i as int));
                assert(lines.last() == self.rows@[i as int]@);
                if i > 0 {
                    assert(text@ =~= joined(lines.drop_last()).push('\n') + lines.last());
                } else {
                    assert(joined(self@.take(0)) =~= Seq::<char>::empty());
                    assert(text@ =~= lines[0]);
                }
            }
            i += 1;
        }
        proof {
            assert(self@.take(self.rows.len() as int) =~= self@);
        }
        text
    }

    /// Types `c` at `at` and marks the document as changed.
    pub fn insert(&mut self, at: &Position, c: char)
        requires
            old(self).wf(),
        ensures
            final(self).wf(),
            final(self)@ == typed(old(self)@, *at, c),
            final(self).dirty(),
            final(self).name() == old(self).name(),
            final(self).anchor() == old(self).anchor(),
    {
        self.dirty = true;
        let ghost show = |row: Row| row@;
        let ghost before = self.rows@;
        let n = self.rows.len();
        if at.y > n {
            return ;
        }
        if at.y == n {
            let mut row = Row::default();
            if c != '\n' {
                row.insert(0, c);
            }
            row.highlight();
            self.rows.push(row);
            proof {
                assert(self.rows@.map_values(show) =~= before.map_values(show).push(row@));
            }
        } else if c == '\n' {
            let mut rest = self.rows[at.y].split(at.x);
            self.rows[at.y].highlight();
            rest.highlight();
            let ghost kept = self.rows@[at.y as int];
            self.rows.insert(at.y + 1, rest);
            proof {
                assert(self.rows@.map_values(show) =~= before.map_values(show).update(
                    at.y as int,
                    kept@,
                ).insert(at.y + 1, rest@));
            }
        } else {
            self.rows[at.y].insert(at.x, c);
            self.rows[at.y].highlight();
            proof {
                assert(self.rows@.map_values(show) =~= before.map_values(show).update(
                    at.y as int,
                    self.rows@[at.y as int]@,
                ));
            }
        }
    }

    /// Deletes at `at` and marks the document as changed.
    pub fn delete(&mut self, at: &Position)
        requires
            old(self).wf(),
        ensures
            final(self).wf(),
            final(self)@ == erased(old(self)@, *at),
            final(self).dirty(),
            final(self).name() == old(self).name(),
            final(self).anchor() == old(self).anchor(),
    {
        self.dirty = true;
        let ghost show = |row: Row| row@;
        let ghost before = self.rows@;
        let n = self.rows.len();
        if at.y >= n {
            return ;
        }
        if at.x == self.rows[at.y].len() && at.y + 1 < n {
            let next = self.rows.remove(at.y + 1);
            self.rows[at.y].append(&next);
            self.rows[at.y].highlight();
            proof {
                assert(self.rows@.map_values(show) =~= before.map_values(show).update(
                    at.y as int,
                    before[at.y as int]@ + before[at.y + 1]@,
                ).remove(at.y + 1));
            }
        } else {
            self.rows[at.y].delete(at.x);
            self.rows[at.y].highlight();
            proof {
                assert(self.rows@.map_values(show) =~= before.map_values(show).update(
                    at.y as int,
                    self.rows@[at.y as int]@,
                ));
            }
        }
    }

    /// The match in the first of the rows `from..to` that has one.
    fn scan(&self, query: &str, from: usize, to: usize) -> (at: Option<Position>)
        requires
            from <= to <= self@.len(),
        ensures
            at == first_hit(self@, query@, from as int, to as int),
            at is Some ==> at->Some_0.x < usize::MAX && from <= at->Some_0.y < to,
    {
        let mut y: usize = from;
        while y < to
            invariant
                from <= y <= to <= self.rows@.len(),
                self@.len() == self.rows@.len(),
                forall|i: int| 0 <= i < self@.len() ==> self@[i] == (#[trigger] self.rows@[i])@,
                first_hit(self@, query@, from as int, to as int) == first_hit(
                    self@,
                    query@,
                    y as int,
                    to as int,
                ),
            decreases to - y,
        {
            match self.rows[y].find(query, 0) {
                Some(x) => {
                    return Some(Position { x, y });
                },
                None => {},
            }
            y += 1;
        }
        None
    }

    /// Looks for the next occurrence of `query`, from the search anchor on
    /// and around the end of the document back to it. A match moves the
    /// anchor just past itself, so that the next search goes on from there.
    pub fn find(&mut self, query: &str) -> (at: Option<Position>)
        ensures
            at == sought(old(self)@, old(self).anchor(), query@),
            at is Some ==> at->Some_0.y < old(self)@.len(),
            at is None ==> forall|r: int|
                0 <= r < old(self)@.len() ==> found(#[trigger] old(self)@[r], query@, 0) is None,
            final(self).anchor() == match at {
                Some(position) => past(position),
                None => old(self).anchor(),
            },
            final(self)@ == old(self)@,
            final(self).rows() == old(self).rows(),
            final(self).wf() == old(self).wf(),
            final(self).dirty() == old(self).dirty(),
            final(self).name() == old(self).name(),
    {
        let n = self.rows.len();
        let anchor = self.anchor;
        let mut at: Option<Position> = None;
        if anchor.y < n {
            match self.rows[anchor.y].find(query, anchor.x) {
                Some(x) => {
                    at = Some(Position { x, y: anchor.y });
                },
                None => {},
            }
        }
        if at.is_none() && anchor.y < n {
            at = self.scan(query, anchor.y + 1, n);
        }
        if at.is_none() {
            let end = if anchor.y < n {
                anchor.y + 1
            } else {
                n
            };
            at = self.scan(query, 0, end);
            proof {
                if at is None {
                    lemma_first_hit_none(self@, query@, 0, end as int);
                    if anchor.y < n {
                        lemma_first_hit_none(self@, query@, anchor.y + 1, n as int);
                    }
                }
            }
        }
        match at {
            Some(position) => {
                self.anchor = Position { x: position.x + 1, y: position.y };
            },
            None => {},
        }
        at
    }

    /// Records the outcome of writing `contents()` to the document's file:
    /// a write that succeeded leaves the document clean, one that failed is
    /// an error and leaves it as it was.
    pub fn save(&mut self, written: bool) -> (saved: Result<(), SaveError>)
        ensures
            saved is Ok <==> written,
            saved is Err ==> saved->Err_0 == SaveError::WriteFailed,
            final(self).dirty() == (old(self).dirty() && !written),
            final(self)@ == old(self)@,
            final(self).rows() == old(self).rows(),
            final(self).wf() == old(self).wf(),
            final(self).name() == old(self).name(),
            final(self).anchor() == old(self).anchor(),
    {
        if written {
            self.dirty = false;
            Ok(())
        } else {
            Err(SaveError::WriteFailed)
        }
    }
}

/// The row for a line that a newline ended: the line without a closing
/// carriage return, with its colour categories.
fn finished(line: &str) -> (row: Row)
    ensures
        row.wf(),
        row@ == without_cr(line@),
        row.colors() == categories(row@),
{
    let n = line.unicode_len();
    let mut row = if n > 0 && line.get_char(n - 1) == '\r' {
        let kept = line.substring_char(0, n - 1);
        proof {
            assert(line@.subrange(0, n - 1) =~= line@.drop_last());
        }
        Row::from(kept)
    } else {
        Row::from(line)
    };
    row.highlight();
    row
}

} // verus!
