//! One line of text, addressed by grapheme clusters.

use crate::color::{fg_reset, fg_rgb, foreground, foreground_reset};
use crate::highlighting::{categories, classify, is_digit, Type};
use crate::segment::{clusters, partitioned, segment};
use crate::text::{
    boundary, chars_of, join, lemma_boundary_monotone, lemma_boundary_step, lemma_span_split, span,
};
use vstd::prelude::*;

verus! {

/// A line of text with its cached grapheme count and its per-character
/// colour categories.
pub struct Row {
    string: String,
    highlighting: Vec<Type>,
    len: usize,
}

/// The number of clusters of `text` that an index is clamped to.
pub open spec fn clamp(text: Seq<char>, at: int) -> int {
    if at < 0 {
        0
    } else if at > clusters(text).len() {
        clusters(text).len() as int
    } else {
        at
    }
}

/// `text` with `c` put in front of cluster `at`, or at the end where there
/// is no such cluster.
pub open spec fn inserted(text: Seq<char>, at: int, c: char) -> Seq<char> {
    let parts = clusters(text);
    if at >= parts.len() {
        text.push(c)
    } else {
        parts.take(at).flatten().push(c) + parts.skip(at).flatten()
    }
}

/// `text` without cluster `at`; unchanged where there is no such cluster.
pub open spec fn deleted(text: Seq<char>, at: int) -> Seq<char> {
    let parts = clusters(text);
    if at >= parts.len() {
        text
    } else {
        parts.take(at).flatten() + parts.skip(at + 1).flatten()
    }
}

/// The first `at` clusters of `text`.
pub open spec fn head(text: Seq<char>, at: int) -> Seq<char> {
    clusters(text).take(clamp(text, at)).flatten()
}

/// What follows the first `at` clusters of `text`.
pub open spec fn tail(text: Seq<char>, at: int) -> Seq<char> {
    clusters(text).skip(clamp(text, at)).flatten()
}

/// What one character looks like on screen: a tab is two spaces, an ASCII
/// digit stands between the number colour and the colour reset, and any
/// other character is itself.
pub open spec fn shown(c: char) -> Seq<char> {
    if c == '\t' {
        seq![' ', ' ']
    } else if is_digit(c) {
        foreground(220, 163, 163).push(c) + foreground_reset()
    } else {
        seq![c]
    }
}

/// What one cluster looks like on screen: each of its characters as shown,
/// in order.
pub open spec fn drawn(cluster: Seq<char>) -> Seq<char> {
    cluster.map_values(|c: char| shown(c)).flatten()
}

/// The pieces `from..to` of `parts` as drawn, one after the other.
pub open spec fn drawn_span(parts: Seq<Seq<char>>, from: int, to: int) -> Seq<char> {
    parts.subrange(from, to).map_values(|cluster: Seq<char>| drawn(cluster)).flatten()
}

/// The cluster index at which a window `start..end` over `text` ends.
pub open spec fn window_end(text: Seq<char>, end: int) -> int {
    clamp(text, end)
}

/// The cluster index at which a window `start..end` over `text` begins.
pub open spec fn window_start(text: Seq<char>, start: int, end: int) -> int {
    if start < 0 {
        0
    } else if start < window_end(text, end) {
        start
    } else {
        window_end(text, end)
    }
}

/// The text shown for the clusters `start..end` of `text`.
pub open spec fn rendered(text: Seq<char>, start: int, end: int) -> Seq<char> {
    drawn_span(clusters(text), window_start(text, start, end), window_end(text, end))
}

/// Whether `needle` stands in `hay` at char index `i`.
pub open spec fn matches_at(hay: Seq<char>, needle: Seq<char>, i: int) -> bool {
    0 <= i && i + needle.len() <= hay.len() && hay.subrange(i, i + needle.len()) =~= needle
}

/// The least char index at or after `from` where `needle` stands in `hay`.
pub open spec fn first_match(hay: Seq<char>, needle: Seq<char>, from: int) -> Option<int>
    decreases hay.len() - from,
{
    if from < 0 || from + needle.len() > hay.len() {
        Option::None
    } else if matches_at(hay, needle, from) {
        Option::Some(from)
    } else {
        first_match(hay, needle, from + 1)
    }
}

/// The index, at or after `from`, of the piece of `parts` that starts at char
/// offset `at`.
pub open spec fn cluster_at(parts: Seq<Seq<char>>, from: int, at: int) -> Option<int>
    decreases parts.len() - from,
{
    if from < 0 || from >= parts.len() {
        Option::None
    } else if boundary(parts, from) == at {
        Option::Some(from)
    } else {
        cluster_at(parts, from + 1, at)
    }
}

/// Where a search for `query` in `text` from cluster `after` ends: at the
/// cluster where the first occurrence at or after that cluster starts. There
/// is no result where `after` is past the last cluster, where `query` does not
/// occur from there on, or where its first occurrence starts inside a cluster.
pub open spec fn found(text: Seq<char>, query: Seq<char>, after: int) -> Option<int> {
    let parts = clusters(text);
    if after < 0 || after >= parts.len() {
        Option::None
    } else {
        match first_match(text, query, boundary(parts, after)) {
            Option::Some(m) => cluster_at(parts, after, m),
            Option::None => Option::None,
        }
    }
}

/// From a boundary that lies past `at` on, no piece starts at `at`.
pub proof fn lemma_cluster_at_past(parts: Seq<Seq<char>>, from: int, at: int)
    requires
        0 <= from <= parts.len(),
        at < boundary(parts, from),
    ensures
        cluster_at(parts, from, at) is None,
    decreases parts.len() - from,
{
    if from < parts.len() {
        lemma_boundary_monotone(parts, from, from + 1);
        lemma_cluster_at_past(parts, from + 1, at);
    }
}

/// Whether `c`, put in front of cluster `at` of `text`, is a cluster of its
/// own there: the new text has a cluster at index `at`, it is `c` alone, and
/// it starts where cluster `at` of `text` started.
pub open spec fn stands_alone(text: Seq<char>, at: int, c: char) -> bool {
    let parts = clusters(inserted(text, at, c));
    &&& at < parts.len()
    &&& parts[at] == seq![c]
    &&& boundary(parts, at) == boundary(clusters(text), at)
}

/// Deleting at the index where a character was just inserted gives the old
/// content back, provided the character did not join a neighbouring cluster.
pub proof fn lemma_insert_then_delete(row: Row, at: usize, c: char)
    requires
        row.wf(),
        at <= row.graphemes().len(),
        partitioned(inserted(row@, at as int, c)),
        stands_alone(row@, at as int, c),
    ensures
        deleted(inserted(row@, at as int, c), at as int) == row@,
{
    let text = row@;
    let old_parts = clusters(text);
    let grown = inserted(text, at as int, c);
    let parts = clusters(grown);
    let before = old_parts.take(at as int).flatten();
    let after = old_parts.skip(at as int).flatten();
    lemma_span_split(old_parts, at as int);
    assert(grown =~= before.push(c) + after) by {
        if at >= old_parts.len() {
            assert(old_parts.take(at as int) =~= old_parts);
            assert(old_parts.skip(at as int) =~= Seq::<Seq<char>>::empty());
        }
    }
    lemma_span_split(parts, at as int);
    lemma_span_split(parts, at + 1);
    lemma_boundary_step(parts, at as int);
    let kept = parts.take(at as int).flatten();
    let rest = parts.skip(at + 1).flatten();
    assert(kept =~= before) by {
        assert(kept =~= grown.take(kept.len() as int));
        assert(before =~= grown.take(before.len() as int));
    }
    assert(rest =~= after) by {
        assert(rest =~= grown.skip(before.len() as int + 1));
        assert(after =~= grown.skip(before.len() as int + 1));
    }
    assert(deleted(grown, at as int) =~= text);
}

/// Splitting a row loses nothing: the part that stays followed by the part
/// that is handed out is the old content.
pub proof fn lemma_split_then_append(row: Row, at: usize)
    requires
        row.wf(),
    ensures
        head(row@, at as int) + tail(row@, at as int) == row@,
{
    lemma_span_split(clusters(row@), clamp(row@, at as int));
}

/// A cluster of characters that are neither tabs nor digits is drawn as
/// itself.
pub proof fn lemma_drawn_plain(cluster: Seq<char>)
    requires
        forall|j: int| 0 <= j < cluster.len() ==> cluster[j] != '\t' && !is_digit(cluster[j]),
    ensures
        drawn(cluster) == cluster,
    decreases cluster.len(),
{
    let show = |c: char| shown(c);
    if cluster.len() == 0 {
        assert(cluster.map_values(show) =~= Seq::<Seq<char>>::empty());
        assert(drawn(cluster) =~= cluster);
    } else {
        let front = cluster.drop_last();
        lemma_drawn_plain(front);
        assert(cluster.map_values(show) =~= front.map_values(show).push(shown(cluster.last())));
        front.map_values(show).lemma_flatten_push(shown(cluster.last()));
        assert(drawn(cluster) =~= cluster);
    }
}

/// Where the graphemes in the window hold neither tabs nor digits, what is
/// rendered is the text of those graphemes, unchanged.
pub proof fn lemma_render_plain(row: Row, start: usize, end: usize)
    requires
        forall|i: int, j: int|
            window_start(row@, start as int, end as int) <= i < window_end(row@, end as int) && 0
                <= j < row.graphemes()[i].len() ==> (#[trigger] row.graphemes()[i][j]) != '\t'
                && !is_digit(row.graphemes()[i][j]),
    ensures
        rendered(row@, start as int, end as int) == span(
            row.graphemes(),
            window_start(row@, start as int, end as int),
            window_end(row@, end as int),
        ),
{
    let from = window_start(row@, start as int, end as int);
    let to = window_end(row@, end as int);
    let pieces = row.graphemes().subrange(from, to);
    let draw = |cluster: Seq<char>| drawn(cluster);
    assert forall|i: int| 0 <= i < pieces.len() implies #[trigger] pieces.map_values(draw)[i]
        == pieces[i] by {
        assert(pieces[i] == row.graphemes()[from + i]);
        lemma_drawn_plain(pieces[i]);
    }
    assert(pieces.map_values(draw) =~= pieces);
}

/// A window never covers more graphemes than it is wide, nor any past the end
/// of the row.
pub proof fn lemma_window_bounds(row: Row, start: usize, end: usize)
    requires
        row.wf(),
    ensures
        0 <= window_start(row@, start as int, end as int) <= window_end(row@, end as int)
            <= row.graphemes().len(),
        start <= end ==> window_end(row@, end as int) - window_start(
            row@,
            start as int,
            end as int,
        ) <= end - start,
        rendered(row@, start as int, end as int) == drawn_span(
            row.graphemes(),
            window_start(row@, start as int, end as int),
            window_end(row@, end as int),
        ),
{
}

/// A text without characters has no clusters.
pub proof fn lemma_no_clusters(text: Seq<char>)
    requires
        partitioned(text),
        text.len() == 0,
    ensures
        clusters(text).len() == 0,
{
    let parts = clusters(text);
    if parts.len() > 0 {
        lemma_span_split(parts, 1);
        lemma_boundary_step(parts, 0);
        assert(parts.take(0) =~= Seq::<Seq<char>>::empty());
    }
}

impl Default for Row {
    /// The empty row.
    fn default() -> (row: Row)
        ensures
            row.wf(),
            row@ == Seq::<char>::empty(),
            row.colors() == Seq::<Type>::empty(),
            row.graphemes().len() == 0,
    {
        let mut row = Row { string: String::new(), highlighting: Vec::new(), len: 0 };
        row.update_len();
        proof {
            lemma_no_clusters(row@);
        }
        row
    }
}

impl View for Row {
    type V = Seq<char>;

    /// The raw content of the row.
    closed spec fn view(&self) -> Seq<char> {
        self.string@
    }
}

impl Row {
    /// The cached grapheme count is the true one, and the clusters of the
    /// content partition it.
    pub closed spec fn wf(&self) -> bool {
        &&& self.len == clusters(self.string@).len()
        &&& partitioned(self.string@)
    }

    /// The row's clusters.
    pub open spec fn graphemes(&self) -> Seq<Seq<char>> {
        clusters(self@)
    }

    /// The stored colour categories.
    pub closed spec fn colors(&self) -> Seq<Type> {
        self.highlighting@
    }

    /// What `wf` promises, for use outside this module.
    pub proof fn lemma_wf(&self)
        requires
            self.wf(),
        ensures
            partitioned(self@),
            clusters(self@).len() <= usize::MAX,
    {
    }

    /// A row that holds `slice`, with no colour categories computed yet.
    pub fn from(slice: &str) -> (row: Row)
        ensures
            row.wf(),
            row@ == slice@,
            row.colors() == Seq::<Type>::empty(),
    {
        let mut row = Row { string: String::from_str(slice), highlighting: Vec::new(), len: 0 };
        row.update_len();
        row
    }

    /// The number of grapheme clusters.
    pub fn len(&self) -> (n: usize)
        requires
            self.wf(),
        ensures
            n == self.graphemes().len(),
    {
        self.len
    }

    pub fn is_empty(&self) -> (empty: bool)
        requires
            self.wf(),
        ensures
            empty == (self.graphemes().len() == 0),
    {
        self.len == 0
    }

    /// Counts the clusters of the content anew and stores the count.
    pub fn update_len(&mut self)
        ensures
            final(self).wf(),
            final(self)@ == old(self)@,
            final(self).colors() == old(self).colors(),
    {
        let parts = segment(self.string.as_str());
        self.len = parts.len();
    }

    /// The content as text.
    pub fn as_str(&self) -> (text: &str)
        ensures
            text@ == self@,
    {
        self.string.as_str()
    }

    /// The colour categories as last computed by `highlight`.
    pub fn highlighting(&self) -> (kinds: &Vec<Type>)
        ensures
            kinds@ == self.colors(),
    {
        &self.highlighting
    }

    /// The content as UTF-8.
    pub fn as_bytes(&self) -> (bytes: &[u8])
        ensures
            bytes@ == vstd::utf8::encode_utf8(self@),
    {
        self.string.as_str().as_bytes()
    }

    /// Puts `c` in front of the grapheme at index `at`, or at the end of the
    /// row where `at` is the length or beyond it.
    pub fn insert(&mut self, at: usize, c: char)
        requires
            old(self).wf(),
        ensures
            final(self).wf(),
            final(self)@ == inserted(old(self)@, at as int, c),
            final(self).colors() == old(self).colors(),
    {
        if at >= self.len() {
            self.string.push(c);
        } else {
            let parts = segment(self.string.as_str());
            let mut result = join(&parts, 0, at);
            let remainder = join(&parts, at, parts.len());
            result.push(c);
            result.append(remainder.as_str());
            self.string = result;
        }
        self.update_len();
    }

    /// Removes the grapheme at index `at`; does nothing where there is none.
    pub fn delete(&mut self, at: usize)
        requires
            old(self).wf(),
        ensures
            final(self).wf(),
            final(self)@ == deleted(old(self)@, at as int),
            final(self).colors() == old(self).colors(),
    {
        if at >= self.len() {
            return ;
        }
        let parts = segment(self.string.as_str());
        let mut result = join(&parts, 0, at);
        let remainder = join(&parts, at + 1, parts.len());
        result.append(remainder.as_str());
        self.string = result;
        self.update_len();
    }

    /// Adds the content of `new` at the end of this row.
    pub fn append(&mut self, new: &Row)
        ensures
            final(self).wf(),
            final(self)@ == old(self)@ + new@,
            final(self).colors() == old(self).colors(),
    {
        self.string.append(new.string.as_str());
        self.update_len();
    }

    /// Keeps the first `at` graphemes and returns a row with the rest.
    pub fn split(&mut self, at: usize) -> (rest: Row)
        ensures
            final(self).wf(),
            rest.wf(),
            final(self)@ == head(old(self)@, at as int),
            rest@ == tail(old(self)@, at as int),
            final(self).colors() == old(self).colors(),
            rest.colors() == Seq::<Type>::empty(),
    {
        let parts = segment(self.string.as_str());
        let cut = if at < parts.len() {
            at
        } else {
            parts.len()
        };
        let beginning = join(&parts, 0, cut);
        let remainder = join(&parts, cut, parts.len());
        self.string = beginning;
        self.update_len();
        Row::from(remainder.as_str())
    }

    /// The text to show for the graphemes `start..end`, both clamped to the
    /// row: every character of those graphemes, with tabs as two spaces and
    /// digits coloured.
    pub fn render(&self, start: usize, end: usize) -> (text: String)
        ensures
            text@ == rendered(self@, start as int, end as int),
            0 <= window_start(self@, start as int, end as int) <= window_end(self@, end as int)
                <= self.graphemes().len(),
            start <= end ==> window_end(self@, end as int) - window_start(
                self@,
                start as int,
                end as int,
            ) <= end - start,
    {
        let parts = segment(self.string.as_str());
        let end = if end < parts.len() {
            end
        } else {
            parts.len()
        };
        let start = if start < end {
            start
        } else {
            end
        };
        let ghost all = parts.deep_view();
        let ghost draw = |cluster: Seq<char>| drawn(cluster);
        let mut result = String::new();
        let mut i: usize = start;
        proof {
            assert(all.subrange(start as int, start as int).map_values(draw) =~= Seq::empty());
        }
        while i < end
            invariant
                start <= i <= end <= parts.len(),
                all == parts.deep_view(),
                all == clusters(self.string@),
                partitioned(self.string@),
                draw == |cluster: Seq<char>| drawn(cluster),
                result@ == drawn_span(all, start as int, i as int),
            decreases end - i,
        {
            let ghost before = result@;
            let piece = draw_cluster(parts[i].as_str());
            proof {
                assert(all[i as int] == parts[i as int]@);
            }
            result.append(piece.as_str());
            proof {
                assert(result@ =~= before + drawn(all[i as int]));
                let shown = all.subrange(start as int, i as int).map_values(draw);
                assert(all.subrange(start as int, i + 1).map_values(draw) =~= shown.push(
                    drawn(all[i as int]),
                ));
                shown.lemma_flatten_push(drawn(all[i as int]));
            }
            i += 1;
        }
        result
    }

    /// Looks for the first occurrence of `query` at or after the grapheme at
    /// index `after` and gives the index of the grapheme it starts at.
    pub fn find(&self, query: &str, after: usize) -> (at: Option<usize>)
        ensures
            match at {
                Some(k) => found(self@, query@, after as int) == Some(k as int),
                None => found(self@, query@, after as int) is None,
            },
            at is Some ==> after <= at->Some_0 < self.graphemes().len() <= usize::MAX,
    {
        let parts = segment(self.string.as_str());
        if after >= parts.len() {
            return None;
        }
        let hay = chars_of(self.string.as_str());
        let needle = chars_of(query);
        let ghost all = parts.deep_view();
        // The char offset of the grapheme the search starts at.
        let mut from: usize = 0;
        let mut k: usize = 0;
        proof {
            assert(all.take(0) =~= Seq::empty());
            assert(hay@.len() == hay.len());
        }
        while k < after
            invariant
                k <= after < parts.len(),
                all == parts.deep_view(),
                all.flatten() == hay@,
                hay@.len() <= usize::MAX,
                from == boundary(all, k as int),
            decreases after - k,
        {
            proof {
                lemma_boundary_step(all, k as int);
                lemma_span_split(all, k + 1);
                assert(all[k as int] == parts[k as int]@);
                assert(boundary(all, k + 1) <= hay@.len());
            }
            from = from + parts[k].as_str().unicode_len();
            k += 1;
        }
        let m = match first_occurrence(&hay, &needle, from) {
            Some(m) => m,
            None => {
                return None;
            },
        };
        // The grapheme that starts at the match, if one does.
        let mut offset: usize = from;
        proof {
            assert(found(self@, query@, after as int) == cluster_at(all, after as int, m as int));
        }
        while k < parts.len()
            invariant
                after <= k <= parts.len(),
                all == parts.deep_view(),
                all.flatten() == hay@,
                hay@.len() <= usize::MAX,
                all == self.graphemes(),
                offset == boundary(all, k as int),
                found(self@, query@, after as int) == cluster_at(all, k as int, m as int),
            decreases parts.len() - k,
        {
            if offset == m {
                return Some(k);
            }
            if offset > m {
                proof {
                    lemma_cluster_at_past(all, k as int, m as int);
                }
                return None;
            }
            proof {
                lemma_boundary_step(all, k as int);
                lemma_span_split(all, k + 1);
                assert(all[k as int] == parts[k as int]@);
                assert(boundary(all, k + 1) <= hay@.len());
            }
            offset = offset + parts[k].as_str().unicode_len();
            k += 1;
        }
        None
    }

    /// Computes the colour category of every character of the content.
    pub fn highlight(&mut self)
        ensures
            final(self)@ == old(self)@,
            final(self).wf() == old(self).wf(),
            final(self).colors() == categories(old(self)@),
    {
        let chars = chars_of(self.string.as_str());
        let mut highlighting: Vec<Type> = Vec::new();
        let mut i: usize = 0;
        while i < chars.len()
            invariant
                i <= chars.len(),
                highlighting@ == categories(chars@.take(i as int)),
            decreases chars.len() - i,
        {
            highlighting.push(classify(chars[i]));
            i += 1;
            proof {
                assert(highlighting@ =~= categories(chars@.take(i as int)));
            }
        }
        proof {
            assert(chars@.take(chars.len() as int) =~= chars@);
        }
        self.highlighting = highlighting;
    }
}

/// One cluster as it is shown.
fn draw_cluster(cluster: &str) -> (text: String)
    ensures
        text@ == drawn(cluster@),
{
    let chars = chars_of(cluster);
    let ghost show = |c: char| shown(c);
    let mut text = String::new();
    let mut j: usize = 0;
    proof {
        assert(chars@.take(0).map_values(show) =~= Seq::<Seq<char>>::empty());
    }
    while j < chars.len()
        invariant
            j <= chars.len(),
            show == |c: char| shown(c),
            text@ == chars@.take(j as int).map_values(show).flatten(),
        decreases chars.len() - j,
    {
        let ghost before = text@;
        let c = chars[j];
        if c == '\t' {
            text.push(' ');
            text.push(' ');
        } else if '0' <= c && c <= '9' {
            let on = fg_rgb(220, 163, 163);
            let off = fg_reset();
            text.append(on.as_str());
            text.push(c);
            text.append(off.as_str());
        } else {
            text.push(c);
        }
        proof {
            assert(text@ =~= before + shown(c));
            let done = chars@.take(j as int).map_values(show);
            assert(chars@.take(j + 1).map_values(show) =~= done.push(shown(c)));
            done.lemma_flatten_push(shown(c));
        }
        j += 1;
    }
    proof {
        assert(chars@.take(chars.len() as int) =~= chars@);
    }
    text
}

/// The least index at or after `from` at which `needle` stands in `hay`.
pub fn first_occurrence(hay: &Vec<char>, needle: &Vec<char>, from: usize) -> (at: Option<usize>)
    ensures
        match at {
            Some(m) => first_match(hay@, needle@, from as int) == Some(m as int),
            None => first_match(hay@, needle@, from as int) is None,
        },
{
    let mut i: usize = from;
    while i <= hay.len() && needle.len() <= hay.len() - i
        invariant
            from <= i,
            first_match(hay@, needle@, from as int) == first_match(hay@, needle@, i as int),
        decreases hay.len() - i,
    {
        let mut j: usize = 0;
        while j < needle.len() && hay[i + j] == needle[j]
            invariant
                i + needle.len() <= hay.len(),
                j <= needle.len(),
                hay@.subrange(i as int, i + j) == needle@.take(j as int),
            decreases needle.len() - j,
        {
            j += 1;
            proof {
                assert(hay@.subrange(i as int, i + j) =~= hay@.subrange(i as int, i + j - 1).push(
                    hay@[i + j - 1],
                ));
                assert(needle@.take(j as int) =~= needle@.take(j - 1).push(needle@[j - 1]));
            }
        }
        if j == needle.len() {
            proof {
                assert(needle@.take(j as int) =~= needle@);
            }
            return Some(i);
        }
        proof {
            assert(!matches_at(hay@, needle@, i as int)) by {
                if matches_at(hay@, needle@, i as int) {
                    assert(hay@.subrange(i as int, i + needle.len())[j as int] == needle@[j as int]);
                }
            }
        }
        i += 1;
    }
    None
}

} // verus!
