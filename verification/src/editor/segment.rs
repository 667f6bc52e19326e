//! Unicode text segmentation and display width, called from
//! `unicode_segmentation` and `unicode_width`.
use unicode_segmentation::UnicodeSegmentation;
use unicode_width::UnicodeWidthStr;
use vstd::prelude::*;

verus! {

/// `UnicodeSegmentation::graphemes(text, true)`: the extended grapheme clusters of a text.
pub uninterp spec fn grapheme_clusters(text: Seq<char>) -> Seq<Seq<char>>;

/// `UnicodeSegmentation::unicode_word_indices`: the words of a text with their byte offsets.
pub uninterp spec fn word_indices(text: Seq<char>) -> Seq<(usize, Seq<char>)>;

/// `UnicodeWidthStr::width`: the number of terminal columns a text takes.
pub uninterp spec fn display_width(text: Seq<char>) -> usize;

/// `word` stands in `text` at a character index whose UTF-8 byte offset is `offset`.
pub open spec fn word_at_offset(text: Seq<char>, offset: usize, word: Seq<char>) -> bool {
    exists|k: int|
        0 <= k && k + word.len() <= text.len() && vstd::utf8::encode_utf8(text.take(k)).len()
            == offset && text.subrange(k, k + word.len()) == word
}

/// The extended grapheme clusters of `text`, in order. The clusters are not
/// empty and, put together, give back the text.
#[verifier::external_body]
pub(crate) fn graphemes(text: &str) -> (clusters: Vec<String>)
    ensures
        clusters.deep_view() == grapheme_clusters(text@),
        clusters.deep_view().flatten() == text@,
        forall|i: int| 0 <= i < clusters.len() ==> #[trigger] clusters.deep_view()[i].len() > 0,
{
    text.graphemes(true).map(|cluster| cluster.to_string()).collect()
}

/// The words of `text` (the word-bound segments that hold a letter or a
/// digit), each with the byte offset at which it starts in the UTF-8 encoding of
/// `text`. Each word is the stretch of `text` that starts at its offset.
#[verifier::external_body]
pub(crate) fn words(text: &str) -> (found: Vec<(usize, String)>)
    ensures
        found.deep_view() == word_indices(text@),
        forall|i: int|
            0 <= i < found.len() ==> word_at_offset(
                text@,
                (#[trigger] found.deep_view()[i]).0,
                found.deep_view()[i].1,
            ),
{
    text.unicode_word_indices().map(|(offset, word)| (offset, word.to_string())).collect()
}

/// The display width of `text` in terminal columns.
#[verifier::external_body]
pub(crate) fn width(text: &str) -> (columns: usize)
    ensures
        columns == display_width(text@),
{
    UnicodeWidthStr::width(text)
}

} // verus!
