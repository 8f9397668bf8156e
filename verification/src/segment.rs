//! Grapheme segmentation: the one place where text is cut into
//! user-perceived characters.

use unicode_segmentation::UnicodeSegmentation;
use vstd::prelude::*;

verus! {

/// The extended grapheme clusters of a text, in order.
///
/// This names what `UnicodeSegmentation::graphemes(text, true)` yields; the
/// segmentation rules themselves are those of the Unicode standard and are
/// not restated here.
pub uninterp spec fn clusters(text: Seq<char>) -> Seq<Seq<char>>;

/// Whether the clusters of `text` are non-empty pieces that, laid end to end,
/// give `text` back.
pub open spec fn partitioned(text: Seq<char>) -> bool {
    &&& clusters(text).flatten() == text
    &&& forall|i: int| 0 <= i < clusters(text).len() ==> (#[trigger] clusters(text)[i]).len() > 0
}

/// Cuts `text` into its extended grapheme clusters.
///
/// Trusted: calls `UnicodeSegmentation::graphemes` with `is_extended` set and
/// copies each slice it yields. The contract says that the pieces are the
/// clusters of `text`, that each piece is non-empty, and that the pieces in
/// order concatenate to `text`: the iterator hands out consecutive sub-slices
/// from the start of the string to its end.
#[verifier::external_body]
pub(crate) fn graphemes(text: &str) -> (parts: Vec<String>)
    ensures
        parts.deep_view() == clusters(text@),
        parts.deep_view().flatten() == text@,
        forall|i: int| 0 <= i < parts.len() ==> (#[trigger] parts[i])@.len() > 0,
{
    text.graphemes(true).map(String::from).collect()
}

/// Segmenting a text yields a partition of it.
pub(crate) fn segment(text: &str) -> (parts: Vec<String>)
    ensures
        parts.deep_view() == clusters(text@),
        partitioned(text@),
{
    let parts = graphemes(text);
    proof {
        assert forall|i: int| 0 <= i < clusters(text@).len() implies (#[trigger] clusters(
            text@,
        )[i]).len() > 0 by {
            assert(parts.deep_view()[i] == parts[i]@);
        }
    }
    parts
}

} // verus!
