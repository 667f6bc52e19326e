//! The editor's text: a rope, with grapheme, word and line navigation over it.
use ropey::Rope;
use vstd::prelude::*;
use vstd::string::StrSliceExecFns;

use super::rope::{
    rope_char, rope_line_len_of, rope_line_of, rope_line_start, rope_lines, rope_char_to_line, rope_chars, rope_from_str, rope_len_chars, rope_len_lines,
    rope_line_len, rope_line_to_char, rope_insert, rope_remove, rope_slice, rope_to_string,
};
use super::segment::{word_at_offset, display_width, grapheme_clusters, graphemes, width, word_indices, words};
use crate::text::{char_index_at_byte, char_index_of_byte, chars_of, lemma_encode_prefix_strict};

verus! {

/// Character indices at which the clusters start, followed by the total length.
pub open spec fn cluster_bounds(clusters: Seq<Seq<char>>) -> Seq<int> {
    Seq::new(clusters.len() + 1, |i: int| clusters.take(i).flatten().len() as int)
}

/// The grapheme boundaries of a text: `0`, the start of every later cluster, and the length.
pub open spec fn grapheme_bounds(text: Seq<char>) -> Seq<int> {
    cluster_bounds(grapheme_clusters(text))
}

/// `k` is the first index of `s` whose element is at least `c` (`s.len()` when none is).
pub open spec fn is_first_at_least(s: Seq<int>, c: int, k: int) -> bool {
    &&& 0 <= k <= s.len()
    &&& forall|i: int| 0 <= i < k ==> s[i] < c
    &&& k < s.len() ==> s[k] >= c
}

/// The first index of `s` whose element is at least `c`, or `s.len()`.
pub open spec fn first_at_least(s: Seq<int>, c: int) -> int {
    choose|k: int| is_first_at_least(s, c, k)
}

/// `k` is the last index of `s` whose element is below `c` (`-1` when none is).
pub open spec fn is_last_below(s: Seq<int>, c: int, k: int) -> bool {
    &&& -1 <= k < s.len()
    &&& k >= 0 ==> s[k] < c
    &&& forall|i: int| k < i < s.len() ==> s[i] >= c
}

/// The last index of `s` whose element is below `c`, or `-1`.
pub open spec fn last_below(s: Seq<int>, c: int) -> int {
    choose|k: int| is_last_below(s, c, k)
}

/// The boundary before `c`: the last boundary that the scan from the start
/// meets before one at or past `c`, or `0`.
pub open spec fn previous_boundary(text: Seq<char>, c: int) -> int {
    let b = grapheme_bounds(text);
    let k = first_at_least(b, c);
    if k == 0 { 0 } else { b[k - 1] }
}

/// The first boundary past `c`, or the end of the text.
pub open spec fn next_boundary(text: Seq<char>, c: int) -> int {
    let b = grapheme_bounds(text);
    let k = first_at_least(b, c + 1);
    if k < b.len() { b[k] } else { text.len() as int }
}

/// The first boundary at or past `c`, or the end of the text.
pub open spec fn boundary_at_or_after(text: Seq<char>, c: int) -> int {
    let b = grapheme_bounds(text);
    let k = first_at_least(b, c);
    if k < b.len() { b[k] } else { text.len() as int }
}

/// The last boundary that the scan from the start meets before one past `c`, or `0`.
pub open spec fn boundary_at_or_before(text: Seq<char>, c: int) -> int {
    let b = grapheme_bounds(text);
    let k = first_at_least(b, c + 1);
    if k == 0 { 0 } else { b[k - 1] }
}

/// The character index at which each word of the text starts.
pub open spec fn word_starts(text: Seq<char>) -> Seq<int> {
    word_indices(text).map_values(|w: (usize, Seq<char>)| char_index_of_byte(text, w.0 as int))
}

/// The character index at which each word of the text ends.
pub open spec fn word_ends(text: Seq<char>) -> Seq<int> {
    word_indices(text).map_values(
        |w: (usize, Seq<char>)| char_index_of_byte(text, w.0 as int) + w.1.len(),
    )
}

/// The start of the last word that starts before `c`, or `0`.
pub open spec fn previous_word_start(text: Seq<char>, c: int) -> int {
    let s = word_starts(text);
    let k = last_below(s, c);
    if k >= 0 { s[k] } else { 0 }
}

/// The end of the first word that ends past `c`, or the end of the text.
pub open spec fn next_word_end(text: Seq<char>, c: int) -> int {
    let e = word_ends(text);
    let k = first_at_least(e, c + 1);
    if k < e.len() { e[k] } else { text.len() as int }
}

/// Where the line that holds `c` starts.
pub open spec fn line_start(text: Seq<char>, c: int) -> int {
    rope_line_to_char(text, rope_char_to_line(text, c as usize)) as int
}

/// Where the line that holds `c` ends, before its line feed if it has one.
pub open spec fn line_end(text: Seq<char>, c: int) -> int {
    let line = rope_char_to_line(text, c as usize);
    let start = rope_line_to_char(text, line) as int;
    let end = start + rope_line_len(text, line);
    if end > start && text[end - 1] == '\n' { end - 1 } else { end }
}

/// Walking the clusters from `width` columns, how many characters fit before the
/// column `column` is passed.
pub open spec fn chars_within_column(clusters: Seq<Seq<char>>, width: int, column: int) -> int
    decreases clusters.len(),
{
    if clusters.len() == 0 {
        0
    } else {
        let next = width + display_width(clusters[0]);
        if next > column {
            0
        } else {
            clusters[0].len() + chars_within_column(clusters.drop_first(), next, column)
        }
    }
}

/// The line that a vertical move by `delta` lines reaches from the line of `c`,
/// kept within the text.
pub open spec fn target_line(text: Seq<char>, c: int, delta: int) -> int {
    let current = rope_char_to_line(text, c as usize) as int;
    let last = rope_len_lines(text) - 1;
    let moved = if current + delta < 0 { 0 } else { current + delta };
    if moved > last { last } else { moved }
}

/// The column that a vertical move keeps: the preferred one, or the display
/// width of the line before `c`.
pub open spec fn vertical_column(text: Seq<char>, c: int, preferred: Option<usize>) -> int {
    match preferred {
        Some(column) => column as int,
        None => display_width(text.subrange(line_start(text, c), c)) as int,
    }
}

/// Where a vertical move by `delta` lines from `c` lands: on the target line, after
/// the clusters that fit within the column.
pub open spec fn vertical_target(text: Seq<char>, c: int, delta: int, preferred: Option<usize>) -> int {
    let start = rope_line_to_char(text, target_line(text, c, delta) as usize) as int;
    let line = text.subrange(start, line_end(text, start));
    start + chars_within_column(grapheme_clusters(line), 0, vertical_column(text, c, preferred))
}

/// A rope-backed text buffer.
pub struct TextBuffer {
    rope: Rope,
}

impl View for TextBuffer {
    type V = Seq<char>;

    closed spec fn view(&self) -> Seq<char> {
        rope_chars(self.rope)
    }
}

pub(crate) proof fn lemma_first_at_least_unique(s: Seq<int>, c: int, k: int)
    requires
        is_first_at_least(s, c, k),
    ensures
        first_at_least(s, c) == k,
{
    let j = first_at_least(s, c);
    assert(is_first_at_least(s, c, j));
    if j < k {
        assert(s[j] < c);
    } else if j > k {
        assert(s[k] < c);
    }
}

pub(crate) proof fn lemma_last_below_unique(s: Seq<int>, c: int, k: int)
    requires
        is_last_below(s, c, k),
    ensures
        last_below(s, c) == k,
{
    let j = last_below(s, c);
    assert(is_last_below(s, c, j));
    if j < k {
        assert(s[k] >= c);
    } else if j > k {
        assert(s[j] >= c);
    }
}

/// Finds the first index of `s` at least `c`.
fn find_first_at_least(s: &Vec<usize>, c: usize) -> (k: usize)
    ensures
        k as int == first_at_least(s@.map_values(|x: usize| x as int), c as int),
        is_first_at_least(s@.map_values(|x: usize| x as int), c as int, k as int),
        k <= s@.len(),
{
    let ghost t = s@.map_values(|x: usize| x as int);
    let len = s.len();
    let mut k: usize = 0;
    while k < len && s[k] < c
        invariant
            len == s@.len(),
            k <= len,
            t == s@.map_values(|x: usize| x as int),
            forall|i: int| 0 <= i < k ==> t[i] < c,
        decreases len - k,
    {
        k = k + 1;
    }
    proof {
        lemma_first_at_least_unique(t, c as int, k as int);
    }
    k
}


/// Finds the first index of `s` above `c`.
fn find_first_above(s: &Vec<usize>, c: usize) -> (k: usize)
    ensures
        k as int == first_at_least(s@.map_values(|x: usize| x as int), c + 1),
        is_first_at_least(s@.map_values(|x: usize| x as int), c + 1, k as int),
        k <= s@.len(),
{
    let ghost t = s@.map_values(|x: usize| x as int);
    let len = s.len();
    let mut k: usize = 0;
    while k < len && s[k] <= c
        invariant
            len == s@.len(),
            k <= len,
            t == s@.map_values(|x: usize| x as int),
            forall|i: int| 0 <= i < k ==> t[i] < c + 1,
        decreases len - k,
    {
        k = k + 1;
    }
    proof {
        lemma_first_at_least_unique(t, c + 1, k as int);
    }
    k
}

/// Finds the last index of `s` below `c`, or `-1` as `None`.
fn find_last_below(s: &Vec<usize>, c: usize) -> (k: Option<usize>)
    ensures
        match k {
            Some(k) => k < s@.len() && k as int == last_below(s@.map_values(|x: usize| x as int), c as int),
            None => last_below(s@.map_values(|x: usize| x as int), c as int) == -1,
        },
{
    let ghost t = s@.map_values(|x: usize| x as int);
    let mut k: usize = s.len();
    while k > 0 && s[k - 1] >= c
        invariant
            k <= s@.len(),
            t == s@.map_values(|x: usize| x as int),
            forall|i: int| k <= i < s@.len() ==> t[i] >= c,
        decreases k,
    {
        k = k - 1;
    }
    if k == 0 {
        proof {
            lemma_last_below_unique(t, c as int, -1);
        }
        None
    } else {
        proof {
            lemma_last_below_unique(t, c as int, k - 1);
        }
        Some(k - 1)
    }
}

/// The character positions at which the words of `text` start and end.
fn word_positions(text: &str) -> (positions: (Vec<usize>, Vec<usize>))
    ensures
        positions.0@.map_values(|x: usize| x as int) == word_starts(text@),
        positions.1@.map_values(|x: usize| x as int) == word_ends(text@),
        forall|i: int| 0 <= i < positions.0@.len() ==> positions.0@[i] <= text@.len(),
        forall|i: int| 0 <= i < positions.1@.len() ==> positions.1@[i] <= text@.len(),
{
    let chars = chars_of(text);
    let text_len = chars.len();
    let found = words(text);
    let ghost ws = found.deep_view();
    let count = found.len();
    let mut starts: Vec<usize> = Vec::new();
    let mut ends: Vec<usize> = Vec::new();
    let mut i: usize = 0;
    while i < count
        invariant
            count == found@.len(),
            ws == found.deep_view(),
            ws == word_indices(text@),
            chars@ == text@,
            forall|j: int| 0 <= j < ws.len() ==> word_at_offset(text@, (#[trigger] ws[j]).0, ws[j].1),
            text_len == text@.len(),
            i <= count,
            starts@.len() == i,
            ends@.len() == i,
            forall|j: int| 0 <= j < i ==> starts@[j] == char_index_of_byte(text@, ws[j].0 as int),
            forall|j: int|
                0 <= j < i ==> ends@[j] == char_index_of_byte(text@, ws[j].0 as int) + ws[j].1.len(),
            forall|j: int| 0 <= j < i ==> ends@[j] <= text@.len(),
            forall|j: int| 0 <= j < i ==> starts@[j] <= text@.len(),
        decreases count - i,
    {
        let ghost entry = ws[i as int];
        assert(found.deep_view()[i as int] == entry);
        assert(word_at_offset(text@, entry.0, entry.1));
        let ghost witness = choose|k: int|
            0 <= k && k + entry.1.len() <= text@.len() && vstd::utf8::encode_utf8(
                text@.take(k),
            ).len() == entry.0 && text@.subrange(k, k + entry.1.len()) == entry.1;
        let offset = found[i].0;
        assert(offset == entry.0);
        let start = char_index_at_byte(&chars, offset);
        proof {
            if (start as int) < witness {
                lemma_encode_prefix_strict(text@, start as int, witness);
            } else if (start as int) > witness {
                lemma_encode_prefix_strict(text@, witness, start as int);
            }
        }
        assert(found@[i as int].1@ == entry.1);
        let length = found[i].1.as_str().unicode_len();
        starts.push(start);
        ends.push(start + length);
        i = i + 1;
    }
    assert(starts@.map_values(|x: usize| x as int) =~= word_starts(text@));
    assert(ends@.map_values(|x: usize| x as int) =~= word_ends(text@));
    (starts, ends)
}

/// The grapheme boundaries of `text`, computed from its clusters.
pub(crate) fn bounds_of(text: &str) -> (bounds: Vec<usize>)
    ensures
        bounds@.map_values(|x: usize| x as int) == grapheme_bounds(text@),
        bounds@.len() >= 1,
        bounds@[0] == 0,
        bounds@[bounds@.len() - 1] == text@.len(),
        forall|i: int, j: int| 0 <= i < j < bounds@.len() ==> bounds@[i] < bounds@[j],
{
    let text_len = text.unicode_len();
    let clusters = graphemes(text);
    let ghost cs = clusters.deep_view();
    let count = clusters.len();
    let mut bounds: Vec<usize> = Vec::new();
    bounds.push(0);
    let mut total: usize = 0;
    let mut i: usize = 0;
    assert(cs.take(0) =~= Seq::<Seq<char>>::empty());
    while i < count
        invariant
            count == cs.len(),
            cs == clusters.deep_view(),
            cs.flatten() == text@,
            text_len == text@.len(),
            forall|j: int| 0 <= j < cs.len() ==> #[trigger] cs[j].len() > 0,
            i <= count,
            bounds@.len() == i + 1,
            total == cs.take(i as int).flatten().len(),
            forall|j: int| 0 <= j <= i ==> bounds@[j] == cs.take(j).flatten().len(),
            forall|j: int, k: int| 0 <= j < k <= i ==> bounds@[j] < bounds@[k],
        decreases count - i,
    {
        proof {
            assert(cs.take(i + 1) =~= cs.take(i as int).push(cs[i as int]));
            cs.take(i as int).lemma_flatten_push(cs[i as int]);
            assert(cs =~= cs.take(i + 1) + cs.skip(i + 1));
            vstd::seq_lib::lemma_flatten_concat(cs.take(i + 1), cs.skip(i + 1));
        }
        assert(cs[i as int] == clusters@[i as int]@);
        let n = clusters[i].as_str().unicode_len();
        let ghost previous = bounds@;
        assert(previous[i as int] == total);
        assert(forall|j: int| 0 <= j <= i ==> previous[j] <= total);
        total = total + n;
        bounds.push(total);
        assert(forall|j: int| 0 <= j <= i ==> bounds@[j] == previous[j]);
        i = i + 1;
    }
    assert(cs.take(count as int) =~= cs);
    assert(bounds@.map_values(|x: usize| x as int) =~= grapheme_bounds(text@));
    bounds
}

impl TextBuffer {
    pub fn new(text: &str) -> (buffer: Self)
        ensures
            buffer@ == text@,
    {
        TextBuffer { rope: rope_from_str(text) }
    }

    pub fn text(&self) -> (text: String)
        ensures
            text@ == self@,
    {
        rope_to_string(&self.rope)
    }

    pub fn len_chars(&self) -> (len: usize)
        ensures
            len == self@.len(),
    {
        rope_len_chars(&self.rope)
    }

    pub fn slice(&self, start: usize, end: usize) -> (text: String)
        requires
            start <= end <= self@.len(),
        ensures
            text@ == self@.subrange(start as int, end as int),
    {
        rope_slice(&self.rope, start, end)
    }

    pub fn char_at(&self, index: usize) -> (c: char)
        requires
            index < self@.len(),
        ensures
            c == self@[index as int],
    {
        rope_char(&self.rope, index)
    }


    /// The grapheme boundary before `index` (see [`previous_boundary`]).
    pub fn previous_grapheme_boundary(&self, index: usize) -> (boundary: usize)
        ensures
            boundary == previous_boundary(self@, index as int),
            boundary <= self@.len(),
            boundary <= index,
            grapheme_bounds(self@).contains(boundary as int),
    {
        let text = self.text();
        let bounds = bounds_of(text.as_str());
        let k = find_first_at_least(&bounds, index);
        let j = if k == 0 { 0 } else { k - 1 };
        assert(grapheme_bounds(self@)[j as int] == bounds@[j as int] as int);
        bounds[j]
    }

    /// The grapheme boundary after `index` (see [`next_boundary`]).
    pub fn next_grapheme_boundary(&self, index: usize) -> (boundary: usize)
        ensures
            boundary == next_boundary(self@, index as int),
            boundary <= self@.len(),
            index < self@.len() ==> index < boundary,
            index <= self@.len() ==> index <= boundary,
            grapheme_bounds(self@).contains(boundary as int),
    {
        let text = self.text();
        let bounds = bounds_of(text.as_str());
        let k = find_first_above(&bounds, index);
        let j = if k < bounds.len() { k } else { bounds.len() - 1 };
        assert(grapheme_bounds(self@)[j as int] == bounds@[j as int] as int);
        bounds[j]
    }

    /// The first grapheme boundary at or after `index`.
    pub fn boundary_at_or_after(&self, index: usize) -> (boundary: usize)
        ensures
            boundary == boundary_at_or_after(self@, index as int),
            boundary <= self@.len(),
            index <= self@.len() ==> index <= boundary,
            grapheme_bounds(self@).contains(boundary as int),
    {
        let text = self.text();
        let bounds = bounds_of(text.as_str());
        let k = find_first_at_least(&bounds, index);
        let j = if k < bounds.len() { k } else { bounds.len() - 1 };
        assert(grapheme_bounds(self@)[j as int] == bounds@[j as int] as int);
        bounds[j]
    }

    /// The last grapheme boundary at or before `index`.
    pub fn boundary_at_or_before(&self, index: usize) -> (boundary: usize)
        ensures
            boundary == boundary_at_or_before(self@, index as int),
            boundary <= self@.len(),
            boundary <= index,
            grapheme_bounds(self@).contains(boundary as int),
    {
        let text = self.text();
        let bounds = bounds_of(text.as_str());
        let k = find_first_above(&bounds, index);
        let j = if k == 0 { 0 } else { k - 1 };
        assert(grapheme_bounds(self@)[j as int] == bounds@[j as int] as int);
        bounds[j]
    }


    /// The start of the word before `index` (see [`previous_word_start`]).
    pub fn previous_word_start(&self, index: usize) -> (start: usize)
        ensures
            start == previous_word_start(self@, index as int),
            start <= self@.len(),
    {
        let text = self.text();
        let (starts, _ends) = word_positions(text.as_str());
        match find_last_below(&starts, index) {
            Some(k) => starts[k],
            None => 0,
        }
    }

    /// The end of the word after `index` (see [`next_word_end`]).
    pub fn next_word_end(&self, index: usize) -> (end: usize)
        ensures
            end == next_word_end(self@, index as int),
            end <= self@.len(),
    {
        let text = self.text();
        let (_starts, ends) = word_positions(text.as_str());
        let k = find_first_above(&ends, index);
        if k < ends.len() {
            ends[k]
        } else {
            self.len_chars()
        }
    }

    /// The line that holds `index`.
    pub fn char_to_line(&self, index: usize) -> (line: usize)
        requires
            index <= self@.len(),
        ensures
            line == rope_char_to_line(self@, index),
            line < rope_len_lines(self@),
            rope_line_to_char(self@, line) <= index,
    {
        rope_line_of(&self.rope, index)
    }

    /// Where a line starts.
    pub fn line_to_char(&self, line: usize) -> (index: usize)
        requires
            line <= rope_len_lines(self@),
        ensures
            index == rope_line_to_char(self@, line),
            index <= self@.len(),
            line < rope_len_lines(self@) ==> rope_char_to_line(self@, index) == line,
    {
        rope_line_start(&self.rope, line)
    }

    /// The number of lines.
    pub fn len_lines(&self) -> (count: usize)
        ensures
            count == rope_len_lines(self@),
            count >= 1,
    {
        rope_lines(&self.rope)
    }

    /// Where the line that holds `index` starts.
    pub fn line_start(&self, index: usize) -> (start: usize)
        requires
            index <= self@.len(),
        ensures
            start == line_start(self@, index as int),
            start <= index,
    {
        let line = rope_line_of(&self.rope, index);
        rope_line_start(&self.rope, line)
    }

    /// Where the line that holds `index` ends, before its line feed.
    pub fn line_end(&self, index: usize) -> (end: usize)
        requires
            index <= self@.len(),
        ensures
            end == line_end(self@, index as int),
            end <= self@.len(),
            line_start(self@, index as int) <= end,
            end <= rope_line_to_char(self@, (rope_char_to_line(self@, index) + 1) as usize),
            rope_line_to_char(self@, rope_char_to_line(self@, index)) == index ==> index <= end,
    {
        let line = rope_line_of(&self.rope, index);
        let start = rope_line_start(&self.rope, line);
        let length = rope_line_len_of(&self.rope, line);
        let end = start + length;
        if end > start && rope_char(&self.rope, end - 1) == '\n' {
            end - 1
        } else {
            end
        }
    }

    /// Where a move up (or down) by one line from `index` lands, and the column it keeps.
    pub fn vertical_target(&self, index: usize, down: bool, preferred: Option<usize>) -> (moved: (
        usize,
        usize,
    ))
        requires
            index <= self@.len(),
        ensures
            moved.0 == vertical_target(self@, index as int, if down { 1 } else { -1 }, preferred),
            moved.1 == vertical_column(self@, index as int, preferred),
            moved.0 <= self@.len(),
    {
        let current = rope_line_of(&self.rope, index);
        let last = rope_lines(&self.rope) - 1;
        let target = if down {
            if current + 1 > last { last } else { current + 1 }
        } else {
            if current == 0 { 0 } else { current - 1 }
        };
        let column = match preferred {
            Some(column) => column,
            None => {
                let start = self.line_start(index);
                let before = rope_slice(&self.rope, start, index);
                width(before.as_str())
            },
        };
        let start = rope_line_start(&self.rope, target);
        let end = self.line_end(start);
        let line = rope_slice(&self.rope, start, end);
        let clusters = graphemes(line.as_str());
        let ghost cs = clusters.deep_view();
        let count = clusters.len();
        let line_len = line.as_str().unicode_len();
        let mut total: usize = 0;
        let mut chars: usize = 0;
        let mut i: usize = 0;
        let mut done = false;
        let ghost line_chars = line@;
        assert(cs.skip(0) =~= cs);
        assert(cs.take(0) =~= Seq::<Seq<char>>::empty());
        while i < count && !done
            invariant
                count == cs.len(),
                cs == clusters.deep_view(),
                cs.flatten() == line_chars,
                line_len == line_chars.len(),
                i <= count,
                chars == cs.take(i as int).flatten().len(),
                chars <= line_chars.len(),
                chars_within_column(cs, 0, column as int) == chars + chars_within_column(
                    cs.skip(i as int),
                    total as int,
                    column as int,
                ),
                done ==> i < count && chars_within_column(
                    cs.skip(i as int),
                    total as int,
                    column as int,
                ) == 0,
            decreases count - i, if done { 0int } else { 1int },
        {
            proof {
                assert(cs.take(i + 1) =~= cs.take(i as int).push(cs[i as int]));
                cs.take(i as int).lemma_flatten_push(cs[i as int]);
                assert(cs =~= cs.take(i + 1) + cs.skip(i + 1));
                vstd::seq_lib::lemma_flatten_concat(cs.take(i + 1), cs.skip(i + 1));
                assert(cs.skip(i as int).drop_first() =~= cs.skip(i + 1));
                assert(cs.skip(i as int)[0] == cs[i as int]);
            }
            assert(cs[i as int] == clusters@[i as int]@);
            let w = width(clusters[i].as_str());
            let next = total.checked_add(w);
            match next {
                Some(next) if next <= column => {
                    let n = clusters[i].as_str().unicode_len();
                    total = next;
                    chars = chars + n;
                    i = i + 1;
                },
                _ => {
                    done = true;
                },
            }
        }
        proof {
            if !done {
                assert(cs.skip(i as int) =~= Seq::<Seq<char>>::empty());
            }
        }
        (start + chars, column)
    }

    /// Replaces the characters in `start..end` with `text`; says whether the text changed.
    pub fn replace(&mut self, start: usize, end: usize, text: &str) -> (changed: bool)
        requires
            start <= end <= old(self)@.len(),
        ensures
            final(self)@ == old(self)@.take(start as int) + text@ + old(self)@.skip(end as int),
            changed == (final(self)@ != old(self)@),
    {
        let ghost before = self@;
        if start == end {
            if text.is_empty() {
                assert(before =~= before.take(start as int) + text@ + before.skip(end as int));
                return false;
            }
        } else {
            let current = rope_slice(&self.rope, start, end);
            let wanted = text.to_owned();
            if current == wanted {
                assert(before =~= before.take(start as int) + text@ + before.skip(end as int));
                return false;
            }
        }
        if start != end {
            rope_remove(&mut self.rope, start, end);
        }
        let ghost middle = self@;
        assert(middle =~= before.take(start as int) + before.skip(end as int));
        if !text.is_empty() {
            rope_insert(&mut self.rope, start, text);
        }
        assert(self@ =~= before.take(start as int) + text@ + before.skip(end as int));
        proof {
            if self@ == before {
                if start == end {
                    assert(self@.len() == before.len() + text@.len());
                } else {
                    let mid = before.subrange(start as int, end as int);
                    assert(before =~= before.take(start as int) + mid + before.skip(end as int));
                    assert(text@ =~= self@.subrange(start as int, start + text@.len()));
                    assert(mid =~= before.subrange(start as int, end as int));
                    assert(self@.len() == before.len());
                    assert(text@.len() == mid.len());
                    assert(text@ =~= mid);
                }
            }
        }
        true
    }
}

} // verus!
