//! What the editor pane shows: the text cut into lines of grapheme cells,
//! each with its highlight, selection and cursor marks, and how far the pane
//! scrolls so that the cursor stays in view.
use std::ops::Range;

use vstd::prelude::*;

use crate::editor::segment::{display_width, grapheme_clusters, graphemes, width};
use crate::editor::syntax::{HighlightSpan, HighlightStyle};
use crate::text::{chars_of, string_of};
use crate::ui::status::{last_line, newline_count};

verus! {

/// One cell of the editor pane: a grapheme cluster (or the blank that shows
/// the cursor at a line's end), the highlight over it, and whether it is
/// selected and under the cursor.
#[derive(Debug, PartialEq, Eq)]
pub struct EditorCell {
    pub text: String,
    pub highlight: Option<HighlightStyle>,
    pub selected: bool,
    pub cursor: bool,
}

/// [`EditorCell`] as mathematical values.
pub struct CellView {
    pub text: Seq<char>,
    pub highlight: Option<HighlightStyle>,
    pub selected: bool,
    pub cursor: bool,
}

impl View for EditorCell {
    type V = CellView;

    open spec fn view(&self) -> CellView {
        CellView { text: self.text@, highlight: self.highlight, selected: self.selected, cursor: self.cursor }
    }
}

/// The views of a line of cells.
pub open spec fn cell_views(line: Seq<EditorCell>) -> Seq<CellView> {
    line.map_values(|c: EditorCell| c@)
}

/// The views of the lines of cells.
pub open spec fn line_views(lines: Seq<Vec<EditorCell>>) -> Seq<Seq<CellView>> {
    lines.map_values(|l: Vec<EditorCell>| cell_views(l@))
}

/// The style of the first span, from the `k`-th on, that covers character `index`.
pub open spec fn highlight_from(spans: Seq<HighlightSpan>, index: int, k: int) -> Option<HighlightStyle>
    decreases spans.len() - k,
{
    if k < 0 || k >= spans.len() {
        None
    } else if spans[k].range.start <= index < spans[k].range.end {
        Some(spans[k].style)
    } else {
        highlight_from(spans, index, k + 1)
    }
}

/// The cell of the cluster `g` that starts at character `index`.
pub open spec fn cluster_cell(
    g: Seq<char>,
    index: int,
    cursor: int,
    selection: Option<Range<usize>>,
    spans: Seq<HighlightSpan>,
) -> CellView {
    CellView {
        text: g,
        highlight: highlight_from(spans, index, 0),
        selected: match selection {
            Some(r) => r.start <= index < r.end,
            None => false,
        },
        cursor: index == cursor,
    }
}

/// The blank cell that shows the cursor where no character is.
pub open spec fn cursor_cell() -> CellView {
    CellView { text: seq![' '], highlight: None, selected: false, cursor: true }
}

/// The lines with `cell` added at the end of the last one.
pub open spec fn add_to_last(lines: Seq<Seq<CellView>>, cell: CellView) -> Seq<Seq<CellView>> {
    lines.update(lines.len() - 1, lines.last().push(cell))
}

/// The lines of cells of the clusters: a line feed ends a line (with the
/// cursor's blank first when the cursor is at it); every other cluster is a cell.
pub open spec fn cluster_lines(
    clusters: Seq<Seq<char>>,
    cursor: int,
    selection: Option<Range<usize>>,
    spans: Seq<HighlightSpan>,
) -> Seq<Seq<CellView>>
    decreases clusters.len(),
{
    if clusters.len() == 0 {
        seq![Seq::empty()]
    } else {
        let prev = cluster_lines(clusters.drop_last(), cursor, selection, spans);
        let index = clusters.drop_last().flatten().len() as int;
        let g = clusters.last();
        if g == seq!['\n'] {
            let ended = if cursor == index {
                add_to_last(prev, cursor_cell())
            } else {
                prev
            };
            ended.push(Seq::empty())
        } else {
            add_to_last(prev, cluster_cell(g, index, cursor, selection, spans))
        }
    }
}

/// The editor pane's lines: the lines of the text's grapheme clusters, with
/// the cursor's blank at the end when the cursor is after the last character.
pub open spec fn editor_layout(
    text: Seq<char>,
    cursor: int,
    selection: Option<Range<usize>>,
    spans: Seq<HighlightSpan>,
) -> Seq<Seq<CellView>> {
    let lines = cluster_lines(grapheme_clusters(text), cursor, selection, spans);
    if cursor == text.len() {
        add_to_last(lines, cursor_cell())
    } else {
        lines
    }
}

proof fn lemma_cluster_lines_nonempty(
    clusters: Seq<Seq<char>>,
    cursor: int,
    selection: Option<Range<usize>>,
    spans: Seq<HighlightSpan>,
)
    ensures
        cluster_lines(clusters, cursor, selection, spans).len() >= 1,
    decreases clusters.len(),
{
    if clusters.len() > 0 {
        lemma_cluster_lines_nonempty(clusters.drop_last(), cursor, selection, spans);
    }
}

/// The style of the first span that covers character `index`.
fn highlight_at(spans: &[HighlightSpan], index: usize) -> (style: Option<HighlightStyle>)
    ensures
        style == highlight_from(spans@, index as int, 0),
{
    let mut k: usize = 0;
    while k < spans.len()
        invariant
            k <= spans@.len(),
            highlight_from(spans@, index as int, 0) == highlight_from(spans@, index as int, k as int),
        decreases spans@.len() - k,
    {
        if spans[k].range.start <= index && index < spans[k].range.end {
            return Some(spans[k].style);
        }
        k = k + 1;
    }
    None
}

/// Adds `cell` at the end of the last line.
fn push_to_last(lines: &mut Vec<Vec<EditorCell>>, cell: EditorCell)
    requires
        old(lines)@.len() >= 1,
    ensures
        line_views(final(lines)@) == add_to_last(line_views(old(lines)@), cell@),
        final(lines)@.len() == old(lines)@.len(),
{
    let ghost last = old(lines)@.len() - 1;
    let mut line = match lines.pop() {
        Some(line) => line,
        None => Vec::new(),
    };
    let ghost before = line@;
    line.push(cell);
    lines.push(line);
    proof {
        assert(before == old(lines)@[last]@);
        assert(cell_views(lines@[last]@) =~= cell_views(before).push(cell@));
        assert(line_views(lines@) =~= add_to_last(line_views(old(lines)@), cell@));
    }
}

/// The editor pane's lines of cells (see [`editor_layout`]).
pub fn editor_lines(
    text: &str,
    cursor: usize,
    selection: Option<Range<usize>>,
    spans: &[HighlightSpan],
) -> (lines: Vec<Vec<EditorCell>>)
    requires
        text@.len() <= usize::MAX,
    ensures
        line_views(lines@) == editor_layout(text@, cursor as int, selection, spans@),
{
    let clusters = graphemes(text);
    let ghost cs = clusters.deep_view();
    let mut lines: Vec<Vec<EditorCell>> = Vec::new();
    lines.push(Vec::new());
    let mut index: usize = 0;
    let mut k: usize = 0;
    proof {
        assert(cs.take(0) =~= Seq::<Seq<char>>::empty());
        assert(line_views(lines@) =~= seq![Seq::<CellView>::empty()]) by {
            assert(cell_views(lines@[0]@) =~= Seq::<CellView>::empty());
        }
    }
    while k < clusters.len()
        invariant
            cs == clusters.deep_view(),
            cs == grapheme_clusters(text@),
            cs.flatten() == text@,
            text@.len() <= usize::MAX,
            k <= cs.len(),
            lines@.len() >= 1,
            index == cs.take(k as int).flatten().len(),
            line_views(lines@) == cluster_lines(cs.take(k as int), cursor as int, selection, spans@),
        decreases cs.len() - k,
    {
        let ghost prefix = cs.take(k as int);
        proof {
            assert(cs.take(k + 1).drop_last() =~= prefix);
            assert(cs.take(k + 1).last() == cs[k as int]);
            assert(cs.take(k + 1) =~= prefix.push(cs[k as int]));
            prefix.lemma_flatten_push(cs[k as int]);
            lemma_flatten_prefix_fits(cs, k as int + 1);
        }
        let g = &clusters[k];
        let g_chars = chars_of(g.as_str());
        let is_newline = g_chars.len() == 1 && g_chars[0] == '\n';
        proof {
            assert(g@ == cs[k as int]);
            if is_newline {
                assert(g@ =~= seq!['\n']);
            } else {
                assert(g@ != seq!['\n']);
            }
        }
        if is_newline {
            if cursor == index {
                push_to_last(&mut lines, EditorCell { text: " ".to_owned(), highlight: None, selected: false, cursor: true });
                proof {
                    reveal_strlit(" ");
                    assert(" "@ =~= seq![' ']);
                }
            }
            let ghost before = lines@;
            lines.push(Vec::new());
            proof {
                assert(line_views(lines@) =~= line_views(before).push(Seq::<CellView>::empty())) by {
                    assert(cell_views(lines@[lines@.len() - 1]@) =~= Seq::<CellView>::empty());
                }
            }
        } else {
            let selected = match &selection {
                Some(r) => r.start <= index && index < r.end,
                None => false,
            };
            let cell = EditorCell {
                text: g.clone(),
                highlight: highlight_at(spans, index),
                selected,
                cursor: index == cursor,
            };
            push_to_last(&mut lines, cell);
        }
        index = index + g_chars.len();
        k = k + 1;
    }
    proof {
        assert(cs.take(cs.len() as int) =~= cs);
    }
    if cursor == index {
        push_to_last(&mut lines, EditorCell { text: " ".to_owned(), highlight: None, selected: false, cursor: true });
        proof {
            reveal_strlit(" ");
            assert(" "@ =~= seq![' ']);
        }
    }
    lines
}

/// The characters of a prefix of the clusters are no more than the text's.
proof fn lemma_flatten_prefix_fits(cs: Seq<Seq<char>>, k: int)
    requires
        0 <= k <= cs.len(),
    ensures
        cs.take(k).flatten().len() <= cs.flatten().len(),
    decreases cs.len() - k,
{
    if k < cs.len() {
        lemma_flatten_prefix_fits(cs, k + 1);
        let p = cs.take(k);
        assert(cs.take(k + 1) =~= p.push(cs[k]));
        p.lemma_flatten_push(cs[k]);
    } else {
        assert(cs.take(k) =~= cs);
    }
}

/// `a - b`, or 0 when `b` is larger.
pub open spec fn saturating_sub(a: int, b: int) -> int {
    if a > b {
        a - b
    } else {
        0
    }
}

/// At most `u16::MAX`.
pub open spec fn clamp_u16(a: int) -> int {
    if a > u16::MAX {
        u16::MAX as int
    } else {
        a
    }
}

/// The columns the cursor itself takes: the width of the cluster under it,
/// at least one; one at a line feed or after the end.
pub open spec fn cursor_width_at(after: Seq<char>) -> int {
    let clusters = grapheme_clusters(after);
    if clusters.len() == 0 || clusters[0] == seq!['\n'] {
        1
    } else if display_width(clusters[0]) < 1 {
        1
    } else {
        display_width(clusters[0]) as int
    }
}

/// How far the editor pane scrolls, in rows and columns, for a viewport of
/// `width` by `height` cells: just far enough that the cursor's line is the
/// last row shown and the cursor's right edge the last column shown, when it
/// would otherwise fall outside; each at most `u16::MAX`.
pub open spec fn scroll_of(text: Seq<char>, cursor: int, width: int, height: int) -> (int, int) {
    let before = text.take(cursor);
    let column = display_width(last_line(before)) as int;
    let right = column + cursor_width_at(text.skip(cursor));
    let right_edge = if right > usize::MAX {
        usize::MAX as int
    } else {
        right
    };
    (
        clamp_u16(saturating_sub(newline_count(before) as int, saturating_sub(height, 1))),
        clamp_u16(saturating_sub(right_edge, width)),
    )
}

/// How far the editor pane scrolls (see [`scroll_of`]).
pub fn editor_scroll(text: &str, cursor: usize, view_width: u16, view_height: u16) -> (scroll: (u16, u16))
    requires
        cursor <= text@.len(),
        text@.len() < usize::MAX,
    ensures
        (scroll.0 as int, scroll.1 as int) == scroll_of(
            text@,
            cursor as int,
            view_width as int,
            view_height as int,
        ),
{
    let cs = chars_of(text);
    let mut after: Vec<char> = Vec::new();
    let mut lines: usize = 0;
    let mut current: Vec<char> = Vec::new();
    let mut i: usize = 0;
    while i < cs.len()
        invariant
            cs@ == text@,
            cursor <= cs@.len(),
            cs@.len() < usize::MAX,
            i <= cs@.len(),
            i <= cursor ==> lines == newline_count(cs@.take(i as int)) && current@ == last_line(
                cs@.take(i as int),
            ) && after@ == Seq::<char>::empty(),
            i > cursor ==> lines == newline_count(cs@.take(cursor as int)) && current@ == last_line(
                cs@.take(cursor as int),
            ) && after@ == cs@.subrange(cursor as int, i as int),
            lines <= i,
        decreases cs@.len() - i,
    {
        let c = cs[i];
        proof {
            assert(cs@.take(i + 1).drop_last() =~= cs@.take(i as int));
            assert(cs@.take(i + 1).last() == c);
        }
        if i < cursor {
            if c == '\n' {
                lines = lines + 1;
                current = Vec::new();
            } else {
                current.push(c);
            }
        } else {
            let ghost a = after@;
            after.push(c);
            proof {
                assert(after@ =~= cs@.subrange(cursor as int, i + 1));
            }
        }
        i = i + 1;
    }
    proof {
        if cursor == cs@.len() {
            assert(after@ =~= cs@.skip(cursor as int));
        } else {
            assert(after@ =~= cs@.subrange(cursor as int, cs@.len() as int));
            assert(cs@.skip(cursor as int) =~= cs@.subrange(cursor as int, cs@.len() as int));
        }
    }
    let column = width(string_of(current.as_slice()).as_str());
    let tail = graphemes(string_of(after.as_slice()).as_str());
    let mut cursor_width: usize = 1;
    if tail.len() > 0 {
        let first = chars_of(tail[0].as_str());
        let newline = first.len() == 1 && first[0] == '\n';
        proof {
            assert(tail.deep_view()[0] == tail@[0]@);
            if newline {
                assert(first@ =~= seq!['\n']);
            }
        }
        if !newline {
            let w = width(tail[0].as_str());
            if w >= 1 {
                cursor_width = w;
            }
        }
    }
    let right = column.saturating_add(cursor_width);
    let rows_shown: usize = if view_height >= 1 {
        (view_height - 1) as usize
    } else {
        0
    };
    let vertical = if lines > rows_shown {
        lines - rows_shown
    } else {
        0
    };
    let horizontal = if right > view_width as usize {
        right - view_width as usize
    } else {
        0
    };
    let v: u16 = if vertical > 65535 { 65535 } else { vertical as u16 };
    let h: u16 = if horizontal > 65535 { 65535 } else { horizontal as u16 };
    (v, h)
}

} // verus!
