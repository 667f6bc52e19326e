//! The find and quick-open overlays: what they hold, how typing and the arrow
//! keys change them, and which text files quick open offers.
use vstd::prelude::*;

use crate::text::{chars_of, string_of};
use crate::workspace::tree::{text_views, TreeEntry, TreeEntryKind};

verus! {

/// The overlay over the workspace, if any.
#[derive(Debug, PartialEq, Eq)]
pub enum OverlayState {
    Nothing,
    Search { query: String },
    QuickOpen { query: String, selected: Option<usize> },
}

/// `str::to_lowercase` of a text: its Unicode lower case.
pub uninterp spec fn lowercase_of(text: Seq<char>) -> Seq<char>;

/// The Unicode lower case of a text (`str::to_lowercase`).
#[verifier::external_body]
fn lowercase(text: &str) -> (lower: String)
    ensures
        lower@ == lowercase_of(text@),
{
    text.to_lowercase()
}

/// `needle` occurs in `haystack`.
pub open spec fn occurs_in(haystack: Seq<char>, needle: Seq<char>) -> bool {
    exists|i: int|
        0 <= i && i + needle.len() <= haystack.len() && #[trigger] haystack.subrange(
            i,
            i + needle.len(),
        ) == needle
}

/// Whether `needle` occurs in `h` at index `i`.
fn occurs_at(h: &Vec<char>, needle: &Vec<char>, i: usize) -> (found: bool)
    requires
        i + needle@.len() <= h@.len(),
    ensures
        found == (h@.subrange(i as int, i + needle@.len()) == needle@),
{
    let hl = h.len();
    let mut j: usize = 0;
    while j < needle.len()
        invariant
            hl == h@.len(),
            i + needle@.len() <= h@.len(),
            j <= needle@.len(),
            forall|m: int| 0 <= m < j ==> h@[i + m] == needle@[m],
        decreases needle@.len() - j,
    {
        if h[i + j] != needle[j] {
            assert(h@.subrange(i as int, i + needle@.len())[j as int] != needle@[j as int]);
            return false;
        }
        j = j + 1;
    }
    assert(h@.subrange(i as int, i + needle@.len()) =~= needle@);
    true
}

/// Whether `needle` occurs in `haystack`.
pub fn occurs(haystack: &str, needle: &str) -> (found: bool)
    ensures
        found == occurs_in(haystack@, needle@),
{
    let h = chars_of(haystack);
    let n = chars_of(needle);
    if n.len() > h.len() {
        return false;
    }
    let last = h.len() - n.len();
    let mut i: usize = 0;
    while i < last
        invariant
            h@ == haystack@,
            n@ == needle@,
            last + n@.len() == h@.len(),
            i <= last,
            forall|k: int| 0 <= k < i ==> #[trigger] h@.subrange(k, k + n@.len()) != n@,
        decreases last - i,
    {
        if occurs_at(&h, &n, i) {
            return true;
        }
        i = i + 1;
    }
    if occurs_at(&h, &n, last) {
        return true;
    }
    proof {
        assert forall|k: int| 0 <= k && k + needle@.len() <= haystack@.len() implies #[trigger] haystack@.subrange(
            k,
            k + needle@.len(),
        ) != needle@ by {
            if k < last {
            } else {
                assert(k == last);
            }
        }
    }
    false
}

/// The enabled text files of the tree, in tree order, directories searched in
/// place.
pub open spec fn text_files(entries: Seq<TreeEntry>) -> Seq<Seq<char>>
    decreases entries,
{
    if entries.len() == 0 {
        Seq::empty()
    } else {
        let e = entries.last();
        proof {
            e.lemma_children_decrease();
        }
        let own = if e.kind_view() == TreeEntryKind::Directory {
            text_files(e.children_view())
        } else if e.kind_view() == TreeEntryKind::File && e.enabled_view() {
            seq![e.path_view()]
        } else {
            Seq::empty()
        };
        text_files(entries.drop_last()) + own
    }
}

/// A path matches a query when the query, in lower case, occurs in the path in
/// lower case.
pub open spec fn matches_query(path: Seq<char>, query: Seq<char>) -> bool {
    occurs_in(lowercase_of(path), lowercase_of(query))
}

/// The paths that match the query, in their order.
pub open spec fn matching(paths: Seq<Seq<char>>, query: Seq<char>) -> Seq<Seq<char>>
    decreases paths.len(),
{
    if paths.len() == 0 {
        Seq::empty()
    } else {
        let rest = matching(paths.drop_last(), query);
        if matches_query(paths.last(), query) {
            rest.push(paths.last())
        } else {
            rest
        }
    }
}

fn collect_text_files(output: &mut Vec<String>, entries: &[TreeEntry])
    ensures
        text_views(final(output)@) == text_views(old(output)@) + text_files(entries@),
    decreases entries@,
{
    let ghost start = text_views(output@);
    let n = entries.len();
    let mut i: usize = 0;
    assert(entries@.take(0) =~= Seq::<TreeEntry>::empty());
    assert(start + Seq::<Seq<char>>::empty() =~= start);
    while i < n
        invariant
            n == entries@.len(),
            i <= n,
            text_views(output@) == start + text_files(entries@.take(i as int)),
        decreases n - i,
    {
        let e = &entries[i];
        let ghost before = text_views(output@);
        if e.kind() == TreeEntryKind::Directory {
            proof {
                assert(decreases_to!(entries@ => entries@[i as int]));
                e.lemma_children_decrease();
            }
            collect_text_files(output, e.children());
        } else if e.kind() == TreeEntryKind::File && e.is_enabled() {
            output.push(e.path().to_owned());
            assert(text_views(output@) =~= before + seq![e.path_view()]);
        } else {
            assert(text_views(output@) =~= before + Seq::<Seq<char>>::empty());
        }
        proof {
            let t = entries@.take(i + 1);
            assert(t.drop_last() =~= entries@.take(i as int));
            assert(t.last() == *e);
        }
        i = i + 1;
    }
    assert(entries@.take(n as int) =~= entries@);
}

/// The enabled text files of the tree whose path contains the query, both
/// taken in lower case, in tree order: what quick open offers.
pub fn matching_text_paths(tree: &Vec<TreeEntry>, query: &str) -> (paths: Vec<String>)
    ensures
        text_views(paths@) == matching(text_files(tree@), query@),
{
    let mut files: Vec<String> = Vec::new();
    collect_text_files(&mut files, tree.as_slice());
    assert(text_views(files@) =~= text_files(tree@));
    let query_lower = lowercase(query);
    let mut paths: Vec<String> = Vec::new();
    let mut i: usize = 0;
    while i < files.len()
        invariant
            i <= files@.len(),
            query_lower@ == lowercase_of(query@),
            text_views(paths@) == matching(text_views(files@).take(i as int), query@),
        decreases files@.len() - i,
    {
        let path_lower = lowercase(files[i].as_str());
        let ghost before = text_views(paths@);
        let ghost t = text_views(files@).take(i + 1);
        assert(t.drop_last() =~= text_views(files@).take(i as int));
        assert(t.last() == files@[i as int]@);
        if occurs(path_lower.as_str(), query_lower.as_str()) {
            paths.push(files[i].clone());
            assert(text_views(paths@) =~= before.push(files@[i as int]@));
        }
        i = i + 1;
    }
    assert(text_views(files@).take(files@.len() as int) =~= text_views(files@));
    paths
}

/// The find overlay with an empty query.
pub fn search_overlay() -> (overlay: OverlayState)
    ensures
        overlay matches OverlayState::Search { query } && query@.len() == 0,
{
    OverlayState::Search { query: String::new() }
}

/// The quick-open overlay with an empty query and its first file selected.
pub fn quick_open_overlay() -> (overlay: OverlayState)
    ensures
        overlay matches OverlayState::QuickOpen { query, selected } && query@.len() == 0
            && selected == Some(0usize),
{
    OverlayState::QuickOpen { query: String::new(), selected: Some(0) }
}

/// The overlay with a new query: quick open goes back to its first file; with
/// no overlay, nothing changes.
pub fn with_query(overlay: OverlayState, query: String) -> (next: OverlayState)
    ensures
        match overlay {
            OverlayState::Nothing => next == OverlayState::Nothing,
            OverlayState::Search { .. } => next == OverlayState::Search { query },
            OverlayState::QuickOpen { .. } => next == OverlayState::QuickOpen {
                query,
                selected: Some(0usize),
            },
        },
{
    match overlay {
        OverlayState::Nothing => OverlayState::Nothing,
        OverlayState::Search { .. } => OverlayState::Search { query },
        OverlayState::QuickOpen { .. } => OverlayState::QuickOpen { query, selected: Some(0) },
    }
}

/// The selection moved by `delta` rows within `count` matches, stopping at
/// the first and the last; with no match there is no selection.
pub open spec fn moved_to(selected: Option<usize>, delta: i32, count: nat) -> Option<usize> {
    if count == 0 {
        None
    } else {
        let from: int = match selected {
            Some(s) => if s < count {
                s as int
            } else {
                count - 1
            },
            None => 0,
        };
        let to = from + delta;
        Some(
            (if to < 0 {
                0
            } else if to >= count {
                count - 1
            } else {
                to
            }) as usize,
        )
    }
}

/// Moves the quick-open selection (see [`moved_to`]); the find overlay and no
/// overlay are left as they are.
pub fn move_selection(overlay: OverlayState, delta: i32, count: usize) -> (next: OverlayState)
    ensures
        match overlay {
            OverlayState::QuickOpen { query, selected } => next == OverlayState::QuickOpen {
                query,
                selected: moved_to(selected, delta, count as nat),
            },
            _ => next == overlay,
        },
{
    match overlay {
        OverlayState::QuickOpen { query, selected } => {
            if count == 0 {
                return OverlayState::QuickOpen { query, selected: None };
            }
            let from: usize = match selected {
                Some(s) => if s < count {
                    s
                } else {
                    count - 1
                },
                None => 0,
            };
            let to: usize = if delta < 0 {
                let back: u64 = (0i64 - delta as i64) as u64;
                if (from as u64) < back {
                    0
                } else {
                    from - (back as usize)
                }
            } else {
                let forward: u64 = delta as u64;
                if forward >= ((count - from) as u64) {
                    count - 1
                } else {
                    from + (forward as usize)
                }
            };
            OverlayState::QuickOpen { query, selected: Some(to) }
        },
        other => other,
    }
}

/// The file quick open opens: the selected match (the first when nothing is
/// selected), if it exists.
pub fn quick_open_choice(selected: Option<usize>, matches: &Vec<String>) -> (choice: Option<String>)
    ensures
        ({
            let index: int = match selected {
                Some(s) => s as int,
                None => 0,
            };
            match choice {
                Some(c) => index < matches@.len() && c@ == matches@[index]@,
                None => index >= matches@.len(),
            }
        }),
{
    let index = match selected {
        Some(s) => s,
        None => 0,
    };
    if index < matches.len() {
        Some(matches[index].clone())
    } else {
        None
    }
}

} // verus!
