//! Literal find over an editor's text.
use vstd::prelude::*;

use super::buffer::{first_at_least, grapheme_bounds, is_first_at_least, last_below, is_last_below};
use crate::text::chars_of;

verus! {

/// `query` occurs in `text` at character index `i`.
pub open spec fn occurs_at(text: Seq<char>, query: Seq<char>, i: int) -> bool {
    0 <= i && i + query.len() <= text.len() && text.subrange(i, i + query.len()) == query
}

/// The starts of the disjoint occurrences of `query`, scanning from `p` and
/// taking the first of any overlapping occurrences.
pub open spec fn occurrences_from(text: Seq<char>, query: Seq<char>, p: int) -> Seq<int>
    decreases text.len() - p,
{
    if query.len() == 0 || p < 0 || p + query.len() > text.len() {
        Seq::empty()
    } else if occurs_at(text, query, p) {
        seq![p] + occurrences_from(text, query, p + query.len())
    } else {
        occurrences_from(text, query, p + 1)
    }
}

/// The literal matches of `query` in `text`: the disjoint occurrences that start
/// and end on grapheme boundaries, as character ranges.
pub open spec fn literal_matches(text: Seq<char>, query: Seq<char>) -> Seq<(int, int)> {
    occurrences_from(text, query, 0).filter(|s: int| on_boundaries(text, query, s)).map_values(
        |s: int| (s, s + query.len()),
    )
}

/// An occurrence at `s` starts and ends on grapheme boundaries.
pub open spec fn on_boundaries(text: Seq<char>, query: Seq<char>, s: int) -> bool {
    grapheme_bounds(text).contains(s) && grapheme_bounds(text).contains(s + query.len())
}

/// The index of the match that a find step selects among `matches`.
pub open spec fn navigated_index(
    matches: Seq<(int, int)>,
    current: Option<usize>,
    cursor: int,
    forward: bool,
) -> int {
    let n = matches.len() as int;
    match current {
        Some(c) => if forward {
            (c + 1) % n
        } else {
            (c + n - 1) % n
        },
        None => if forward {
            let k = first_at_least(matches.map_values(|m: (int, int)| m.0), cursor);
            if k < n { k } else { 0 }
        } else {
            let k = last_below(matches.map_values(|m: (int, int)| m.1), cursor + 1);
            if k >= 0 { k } else { n - 1 }
        },
    }
}

/// Scanning down from `k`, the last index of `s` whose element is below `c`
/// exists (all elements past `k` being at least `c`).
proof fn lemma_last_below_exists(s: Seq<int>, c: int, k: int)
    requires
        -1 <= k < s.len(),
        forall|i: int| k < i < s.len() ==> s[i] >= c,
    ensures
        is_last_below(s, c, last_below(s, c)),
    decreases k + 1,
{
    if k == -1 || s[k] < c {
        assert(is_last_below(s, c, k));
    } else {
        lemma_last_below_exists(s, c, k - 1);
    }
}

/// Scanning up from `k`, the first index of `s` whose element is at least `c`
/// exists (all elements before `k` being below `c`).
pub(crate) proof fn lemma_first_at_least_exists(s: Seq<int>, c: int, k: int)
    requires
        0 <= k <= s.len(),
        forall|i: int| 0 <= i < k ==> s[i] < c,
    ensures
        is_first_at_least(s, c, first_at_least(s, c)),
    decreases s.len() - k,
{
    if k == s.len() || s[k] >= c {
        assert(is_first_at_least(s, c, k));
    } else {
        lemma_first_at_least_exists(s, c, k + 1);
    }
}

/// Which match a find step selects. With a match selected, the next step
/// selects the one after it and the previous step the one before it, wrapping
/// around at either end. With none selected yet, a next step selects the first
/// match that starts at or after the cursor (the first match when none does),
/// and a previous step selects the last match that ends at or before the
/// cursor (the last match when none does).
pub proof fn law_find_step_selects_around_the_cursor(
    ranges: Seq<(int, int)>,
    current: Option<usize>,
    cursor: int,
    forward: bool,
)
    requires
        ranges.len() > 0,
        current is Some ==> current->0 < ranges.len(),
    ensures
        ({
            let n = ranges.len() as int;
            let k = navigated_index(ranges, current, cursor, forward);
            &&& 0 <= k < n
            &&& current is Some && forward ==> (current->0 + 1 < n ==> k == current->0 + 1) && (
            current->0 + 1 == n ==> k == 0)
            &&& current is Some && !forward ==> (current->0 > 0 ==> k == current->0 - 1) && (current->0
                == 0 ==> k == n - 1)
            &&& current is None && forward && (exists|i: int| 0 <= i < n && ranges[i].0 >= cursor) ==> {
                &&& ranges[k].0 >= cursor
                &&& forall|j: int| 0 <= j < k ==> ranges[j].0 < cursor
            }
            &&& current is None && forward && (forall|i: int| 0 <= i < n ==> ranges[i].0 < cursor) ==> k == 0
            &&& current is None && !forward && (exists|i: int| 0 <= i < n && ranges[i].1 <= cursor) ==> {
                &&& ranges[k].1 <= cursor
                &&& forall|j: int| k < j < n ==> ranges[j].1 > cursor
            }
            &&& current is None && !forward && (forall|i: int| 0 <= i < n ==> ranges[i].1 > cursor) ==> k == n - 1
        }),
{
    let n = ranges.len() as int;
    let starts = ranges.map_values(|m: (int, int)| m.0);
    let ends = ranges.map_values(|m: (int, int)| m.1);
    lemma_first_at_least_exists(starts, cursor, 0);
    lemma_last_below_exists(ends, cursor + 1, n - 1);
    let f = first_at_least(starts, cursor);
    let l = last_below(ends, cursor + 1);
    match current {
        Some(c) => {
            if forward {
                assert((c + 1) % n == (if c + 1 < n { c + 1 } else { 0 })) by (nonlinear_arith)
                    requires 0 <= c < n;
            } else {
                assert((c + n - 1) % n == (if c > 0 { c - 1 } else { n - 1 })) by (nonlinear_arith)
                    requires 0 <= c < n;
            }
        },
        None => {
            if forward {
                if exists|i: int| 0 <= i < n && ranges[i].0 >= cursor {
                    let i = choose|i: int| 0 <= i < n && ranges[i].0 >= cursor;
                    assert(starts[i] == ranges[i].0);
                    assert(f < n);
                    assert(starts[f] == ranges[f].0);
                    assert forall|j: int| 0 <= j < f implies ranges[j].0 < cursor by {
                        assert(starts[j] == ranges[j].0);
                    }
                } else if f < n {
                    assert(starts[f] == ranges[f].0);
                }
            } else {
                if exists|i: int| 0 <= i < n && ranges[i].1 <= cursor {
                    let i = choose|i: int| 0 <= i < n && ranges[i].1 <= cursor;
                    assert(ends[i] == ranges[i].1);
                    assert(l >= 0);
                    assert(ends[l] == ranges[l].1);
                    assert forall|j: int| l < j < n implies ranges[j].1 > cursor by {
                        assert(ends[j] == ranges[j].1);
                    }
                } else if l >= 0 {
                    assert(ends[l] == ranges[l].1);
                }
            }
        },
    }
}

/// Each element comes at least `gap` after the ones before it.
pub open spec fn spaced(s: Seq<int>, gap: int) -> bool {
    forall|i: int, j: int| #![trigger s[i], s[j]] 0 <= i < j < s.len() ==> s[i] + gap <= s[j]
}

/// The occurrences found from `p` on are occurrences, at or after `p`, each at
/// least the query's length after the one before.
proof fn lemma_occurrences_from(text: Seq<char>, query: Seq<char>, p: int)
    ensures
        forall|i: int|
            0 <= i < occurrences_from(text, query, p).len() ==> occurs_at(
                text,
                query,
                #[trigger] occurrences_from(text, query, p)[i],
            ) && occurrences_from(text, query, p)[i] >= p,
        spaced(occurrences_from(text, query, p), query.len() as int),
    decreases text.len() - p,
{
    if query.len() == 0 || p < 0 || p + query.len() > text.len() {
    } else if occurs_at(text, query, p) {
        lemma_occurrences_from(text, query, p + query.len());
        let rest = occurrences_from(text, query, p + query.len());
        let all = seq![p] + rest;
        assert forall|i: int| 0 <= i < all.len() implies occurs_at(text, query, #[trigger] all[i]) && all[i] >= p by {
            if i > 0 {
                assert(all[i] == rest[i - 1]);
            }
        }
        assert forall|i: int, j: int| #![trigger all[i], all[j]] 0 <= i < j < all.len() implies all[i] + query.len() <= all[j] by {
            assert(all[j] == rest[j - 1]);
            if i > 0 {
                assert(all[i] == rest[i - 1]);
            }
        }
    } else {
        lemma_occurrences_from(text, query, p + 1);
    }
}

/// Keeping some elements of a spaced sequence leaves it spaced, and keeps
/// only elements it had.
proof fn lemma_filter_spaced(s: Seq<int>, keep: spec_fn(int) -> bool, gap: int)
    requires
        spaced(s, gap),
    ensures
        spaced(s.filter(keep), gap),
        forall|i: int| 0 <= i < s.filter(keep).len() ==> s.contains(#[trigger] s.filter(keep)[i]),
    decreases s.len(),
{
    reveal_with_fuel(Seq::filter, 1);
    if s.len() > 0 {
        let prev = s.drop_last();
        assert(spaced(prev, gap)) by {
            assert forall|i: int, j: int| #![trigger prev[i], prev[j]] 0 <= i < j < prev.len() implies prev[i] + gap <= prev[j] by {
                assert(prev[i] == s[i] && prev[j] == s[j]);
            }
        }
        lemma_filter_spaced(prev, keep, gap);
        let sub = prev.filter(keep);
        assert forall|i: int| 0 <= i < sub.len() implies s.contains(#[trigger] sub[i]) by {
            let k = choose|k: int| 0 <= k < prev.len() && prev[k] == sub[i];
            assert(s[k] == sub[i]);
        }
        if keep(s.last()) {
            let out = sub.push(s.last());
            assert forall|i: int, j: int| #![trigger out[i], out[j]] 0 <= i < j < out.len() implies out[i] + gap <= out[j] by {
                assert(out[i] == sub[i]);
                if j == out.len() - 1 {
                    let k = choose|k: int| 0 <= k < prev.len() && prev[k] == sub[i];
                    assert(s[k] == sub[i]);
                    assert(s[s.len() - 1] == s.last());
                } else {
                    assert(out[j] == sub[j]);
                }
            }
            assert forall|i: int| 0 <= i < out.len() implies s.contains(#[trigger] out[i]) by {
                if i < sub.len() {
                    assert(out[i] == sub[i]);
                } else {
                    assert(s[s.len() - 1] == out[i]);
                }
            }
        }
    }
}

/// What find looks for: each literal match is an occurrence of the query,
/// starting and ending on grapheme boundaries; the matches come in order of
/// the text, none overlapping the next; and an empty query has no match.
pub proof fn law_literal_matches_are_ordered_occurrences(text: Seq<char>, query: Seq<char>)
    ensures
        ({
            let ms = literal_matches(text, query);
            &&& query.len() == 0 ==> ms.len() == 0
            &&& forall|i: int|
                0 <= i < ms.len() ==> {
                    &&& 0 <= (#[trigger] ms[i]).0
                    &&& ms[i].1 == ms[i].0 + query.len()
                    &&& ms[i].1 <= text.len()
                    &&& text.subrange(ms[i].0, ms[i].1) == query
                    &&& grapheme_bounds(text).contains(ms[i].0)
                    &&& grapheme_bounds(text).contains(ms[i].1)
                }
            &&& forall|i: int, j: int| 0 <= i < j < ms.len() ==> (#[trigger] ms[i]).1 <= (#[trigger] ms[j]).0
        }),
{
    let occ = occurrences_from(text, query, 0);
    let keep = |s: int| on_boundaries(text, query, s);
    lemma_occurrences_from(text, query, 0);
    lemma_filter_spaced(occ, keep, query.len() as int);
    let kept = occ.filter(keep);
    let ms = literal_matches(text, query);
    assert(ms == kept.map_values(|s: int| (s, s + query.len())));
    assert forall|i: int| 0 <= i < ms.len() implies {
        &&& 0 <= (#[trigger] ms[i]).0
        &&& ms[i].1 == ms[i].0 + query.len()
        &&& ms[i].1 <= text.len()
        &&& text.subrange(ms[i].0, ms[i].1) == query
        &&& grapheme_bounds(text).contains(ms[i].0)
        &&& grapheme_bounds(text).contains(ms[i].1)
    } by {
        assert(ms[i] == (kept[i], kept[i] + query.len()));
        assert(occ.contains(kept[i]));
        let k = choose|k: int| 0 <= k < occ.len() && occ[k] == kept[i];
        assert(occurs_at(text, query, occ[k]));
        occ.lemma_filter_pred(keep, i);
        assert(keep(kept[i]));
    }
    assert forall|i: int, j: int| 0 <= i < j < ms.len() implies (#[trigger] ms[i]).1 <= (#[trigger] ms[j]).0 by {
        assert(ms[i] == (kept[i], kept[i] + query.len()));
        assert(ms[j] == (kept[j], kept[j] + query.len()));
        assert(kept[i] + query.len() <= kept[j]);
    }
}

/// The scan from `p` misses no occurrence: every occurrence at or after `p`
/// starts within one that the scan found.
proof fn lemma_occurrences_cover(text: Seq<char>, query: Seq<char>, p: int, x: int)
    requires
        p <= x,
        0 <= p,
        occurs_at(text, query, x),
        query.len() > 0,
    ensures
        exists|i: int|
            0 <= i < occurrences_from(text, query, p).len() && #[trigger] occurrences_from(text, query, p)[i]
                <= x < occurrences_from(text, query, p)[i] + query.len(),
    decreases text.len() - p,
{
    let occ = occurrences_from(text, query, p);
    if occurs_at(text, query, p) {
        if x < p + query.len() {
            assert(occ[0] == p);
        } else {
            lemma_occurrences_cover(text, query, p + query.len(), x);
            let rest = occurrences_from(text, query, p + query.len());
            let i = choose|i: int| 0 <= i < rest.len() && #[trigger] rest[i] <= x < rest[i] + query.len();
            assert(occ[i + 1] == rest[i]);
        }
    } else {
        lemma_occurrences_cover(text, query, p + 1, x);
    }
}

/// Find misses nothing it should find: an occurrence of the query that
/// overlaps no earlier occurrence, and that starts and ends on grapheme
/// boundaries, is one of the literal matches.
pub proof fn law_literal_matches_find_every_free_occurrence(text: Seq<char>, query: Seq<char>, x: int)
    requires
        query.len() > 0,
        occurs_at(text, query, x),
        on_boundaries(text, query, x),
        forall|y: int| x - query.len() < y < x ==> !occurs_at(text, query, y),
    ensures
        literal_matches(text, query).contains((x, x + query.len())),
{
    let occ = occurrences_from(text, query, 0);
    lemma_occurrences_cover(text, query, 0, x);
    lemma_occurrences_from(text, query, 0);
    let i = choose|i: int| 0 <= i < occ.len() && #[trigger] occ[i] <= x < occ[i] + query.len();
    assert(occurs_at(text, query, occ[i]));
    assert(occ[i] == x);
    let keep = |s: int| on_boundaries(text, query, s);
    occ.lemma_filter_contains(keep, i);
    let kept = occ.filter(keep);
    let j = choose|j: int| 0 <= j < kept.len() && kept[j] == x;
    let ms = literal_matches(text, query);
    assert(ms == kept.map_values(|s: int| (s, s + query.len())));
    assert(ms[j] == (x, x + query.len()));
}

/// One selected match: its range, its one-based position and the number of matches.
pub struct SearchMatch {
    pub start: usize,
    pub end: usize,
    pub current: usize,
    pub total: usize,
}

/// The find query and the match that the last find step selected.
pub struct SearchState {
    query: String,
    current: Option<usize>,
}

impl SearchState {
    /// The find query.
    pub closed spec fn query_view(&self) -> Seq<char> {
        self.query@
    }

    /// The index of the match that the last find step selected.
    pub closed spec fn current_view(&self) -> Option<usize> {
        self.current
    }

    /// No query and no selected match.
    pub fn new() -> (state: Self)
        ensures
            state.query_view() == Seq::<char>::empty(),
            state.current_view() is None,
    {
        SearchState { query: String::new(), current: None }
    }

    /// Sets the query; the next find step starts from the cursor.
    pub fn set_query(&mut self, query: String)
        ensures
            final(self).query_view() == query@,
            final(self).current_view() is None,
    {
        self.query = query;
        self.current = None;
    }

    /// Forgets the selected match; the next find step starts from the cursor.
    pub fn reset_navigation(&mut self)
        ensures
            final(self).query_view() == old(self).query_view(),
            final(self).current_view() is None,
    {
        self.current = None;
    }

    /// Selects the next (or previous) literal match of the query in `text`,
    /// starting from the cursor when no match is selected yet, and wrapping around.
    pub fn navigate(&mut self, text: &str, cursor: usize, forward: bool) -> (found: Option<
        SearchMatch,
    >)
        ensures
            final(self).query_view() == old(self).query_view(),
            ({
                let matches = literal_matches(text@, old(self).query_view());
                if matches.len() == 0 {
                    found is None && final(self).current_view() is None
                } else {
                    let k = navigated_index(matches, old(self).current_view(), cursor as int, forward);
                    &&& 0 <= k < matches.len()
                    &&& found matches Some(m) && m.start == matches[k].0 && m.end == matches[k].1
                        && m.current == k + 1 && m.total == matches.len()
                    &&& final(self).current_view() == Some(k as usize)
                }
            }),
            found matches Some(m) ==> m.start <= m.end <= text@.len(),
    {
        let matches = find_literal_matches(text, self.query.as_str());
        let ghost ms = literal_matches(text@, self.query@);
        let ghost pairs = matches@.map_values(|m: (usize, usize)| (m.0 as int, m.1 as int));
        assert(pairs == ms);
        let n = matches.len();
        if n == 0 {
            self.current = None;
            return None;
        }
        let current: usize = match self.current {
            Some(c) => {
                if forward {
                    assert((c + 1) % (n as int) == ((c % n) + 1) % (n as int)) by (nonlinear_arith)
                        requires n > 0;
                    (c % n + 1) % n
                } else {
                    let r = c % n;
                    assert((c + n - 1) % (n as int) == if r == 0 { n - 1 } else { r - 1 }) by (nonlinear_arith)
                        requires n > 0, r == c % n, 0 <= r < n;
                    if r == 0 { n - 1 } else { r - 1 }
                }
            },
            None => {
                let ghost starts = ms.map_values(|m: (int, int)| m.0);
                let ghost ends = ms.map_values(|m: (int, int)| m.1);
                if forward {
                    let mut k: usize = 0;
                    while k < n && matches[k].0 < cursor
                        invariant
                            n == matches@.len(),
                            pairs == ms,
                            pairs == matches@.map_values(|m: (usize, usize)| (m.0 as int, m.1 as int)),
                            starts == ms.map_values(|m: (int, int)| m.0),
                            k <= n,
                            forall|i: int| 0 <= i < k ==> starts[i] < cursor,
                        decreases n - k,
                    {
                        k = k + 1;
                    }
                    proof {
                        if k < n {
                            assert(starts[k as int] == matches@[k as int].0);
                        }
                        super::buffer::lemma_first_at_least_unique(starts, cursor as int, k as int);
                    }
                    if k < n { k } else { 0 }
                } else {
                    let mut k: usize = n;
                    while k > 0 && matches[k - 1].1 > cursor
                        invariant
                            n == matches@.len(),
                            pairs == ms,
                            pairs == matches@.map_values(|m: (usize, usize)| (m.0 as int, m.1 as int)),
                            ends == ms.map_values(|m: (int, int)| m.1),
                            k <= n,
                            forall|i: int| k <= i < n ==> ends[i] >= cursor + 1,
                        decreases k,
                    {
                        k = k - 1;
                    }
                    proof {
                        if k > 0 {
                            assert(ends[k - 1] == matches@[k - 1].1);
                        }
                        super::buffer::lemma_last_below_unique(ends, cursor + 1, k - 1);
                    }
                    if k > 0 { k - 1 } else { n - 1 }
                }
            },
        };
        self.current = Some(current);
        assert(pairs[current as int] == ms[current as int]);
        Some(SearchMatch {
            start: matches[current].0,
            end: matches[current].1,
            current: current + 1,
            total: n,
        })
    }
}

fn occurs_here(text: &Vec<char>, query: &Vec<char>, p: usize) -> (found: bool)
    requires
        p + query@.len() <= text@.len(),
    ensures
        found == occurs_at(text@, query@, p as int),
{
    let qlen = query.len();
    let tl = text.len();
    let mut i: usize = 0;
    while i < qlen
        invariant
            qlen == query@.len(),
            tl == text@.len(),
            p + qlen <= text@.len(),
            i <= qlen,
            forall|j: int| 0 <= j < i ==> text@[p + j] == query@[j],
        decreases qlen - i,
    {
        if text[p + i] != query[i] {
            assert(text@.subrange(p as int, p + qlen)[i as int] != query@[i as int]);
            return false;
        }
        i = i + 1;
    }
    assert(text@.subrange(p as int, p + qlen) =~= query@);
    true
}

/// The literal matches of `query` in `text` (see [`literal_matches`]).
pub fn find_literal_matches(text: &str, query: &str) -> (matches: Vec<(usize, usize)>)
    ensures
        matches@.map_values(|m: (usize, usize)| (m.0 as int, m.1 as int)) == literal_matches(
            text@,
            query@,
        ),
        forall|i: int| 0 <= i < matches@.len() ==> (#[trigger] matches@[i]).0 <= matches@[i].1 <= text@.len(),
{
    let t = chars_of(text);
    let q = chars_of(query);
    let tlen = t.len();
    let qlen = q.len();
    let ghost pred = |s: int| on_boundaries(text@, query@, s);
    let mut matches: Vec<(usize, usize)> = Vec::new();
    if qlen == 0 {
        assert(occurrences_from(text@, query@, 0) =~= Seq::<int>::empty());
        assert(literal_matches(text@, query@) =~= Seq::<(int, int)>::empty());
        return matches;
    }
    let bounds = super::buffer::bounds_of(text);
    let ghost b = bounds@.map_values(|x: usize| x as int);
    let blen = bounds.len();
    let mut p: usize = 0;
    proof {
        assert(Seq::<int>::empty() + occurrences_from(text@, query@, 0).filter(pred)
            =~= occurrences_from(text@, query@, 0).filter(pred));
    }
    while p <= tlen && tlen - p >= qlen
        invariant
            tlen == t@.len(),
            qlen == q@.len(),
            t@ == text@,
            q@ == query@,
            qlen > 0,
            pred == (|s: int| on_boundaries(text@, query@, s)),
            blen == bounds@.len(),
            b == bounds@.map_values(|x: usize| x as int),
            b == grapheme_bounds(text@),
            p <= tlen,
            matches@.map_values(|m: (usize, usize)| m.0 as int) + occurrences_from(
                text@,
                query@,
                p as int,
            ).filter(pred) == occurrences_from(text@, query@, 0).filter(pred),
            forall|i: int| 0 <= i < matches@.len() ==> #[trigger] matches@[i].1 == matches@[i].0 + qlen,
            forall|i: int| 0 <= i < matches@.len() ==> matches@[i].1 <= tlen,
        decreases tlen - p,
    {
        let ghost before = matches@;
        let ghost here = occurrences_from(text@, query@, p as int);
        if occurs_here(&t, &q, p) {
            assert(here == seq![p as int] + occurrences_from(text@, query@, p + qlen));
            let end = p + qlen;
            let mut start_ok = false;
            let mut end_ok = false;
            let mut j: usize = 0;
            while j < blen
                invariant
                    blen == bounds@.len(),
                    b == bounds@.map_values(|x: usize| x as int),
                    j <= blen,
                    start_ok == exists|k: int| 0 <= k < j && b[k] == p,
                    end_ok == exists|k: int| 0 <= k < j && b[k] == end,
                decreases blen - j,
            {
                assert(b[j as int] == bounds@[j as int] as int);
                if bounds[j] == p {
                    start_ok = true;
                }
                if bounds[j] == end {
                    end_ok = true;
                }
                j = j + 1;
            }
            proof {
                assert(j == blen);
                if start_ok {
                    let k = choose|k: int| 0 <= k < j && b[k] == p;
                    assert(b.contains(p as int));
                }
                if end_ok {
                    let k = choose|k: int| 0 <= k < j && b[k] == end;
                    assert(b.contains(end as int));
                }
                assert(b.contains(p as int) == start_ok);
                assert(b.contains(end as int) == end_ok);
                assert(b == grapheme_bounds(text@));
                assert(on_boundaries(text@, query@, p as int) == (b.contains(p as int) && b.contains(p + query@.len())));
                assert(pred(p as int) == on_boundaries(text@, query@, p as int));
                assert(pred(p as int) == (start_ok && end_ok));
                Seq::filter_distributes_over_add(
                    seq![p as int],
                    occurrences_from(text@, query@, p + qlen),
                    pred,
                );
                reveal_with_fuel(Seq::filter, 2);
            }
            if start_ok && end_ok {
                matches.push((p, end));
                proof {
                    assert(seq![p as int].filter(pred) =~= seq![p as int]);
                    assert(matches@.map_values(|m: (usize, usize)| m.0 as int) =~= before.map_values(
                        |m: (usize, usize)| m.0 as int,
                    ) + seq![p as int]);
                }
            } else {
                proof {
                    assert(seq![p as int].filter(pred) =~= Seq::<int>::empty());
                    assert(matches@ == before);
                }
            }
            p = end;
        } else {
            assert(here == occurrences_from(text@, query@, p + 1));
            p = p + 1;
        }
    }
    assert(occurrences_from(text@, query@, p as int) =~= Seq::<int>::empty());
    proof {
        assert(Seq::<int>::empty().filter(pred) =~= Seq::<int>::empty());
        let starts = matches@.map_values(|m: (usize, usize)| m.0 as int);
        assert(starts + Seq::<int>::empty() =~= starts);
        let pairs = matches@.map_values(|m: (usize, usize)| (m.0 as int, m.1 as int));
        let spec_matches = literal_matches(text@, query@);
        assert(pairs.len() == spec_matches.len());
        assert forall|i: int| 0 <= i < pairs.len() implies #[trigger] pairs[i] == spec_matches[i] by {
            assert(starts[i] == matches@[i].0);
        }
        assert(pairs =~= spec_matches);
    }
    matches
}

} // verus!
