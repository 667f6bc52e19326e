//! Syntax highlighting languages and the cache of highlighted spans.
use vstd::prelude::*;

verus! {

/// The highlighting a note gets, chosen by its file extension.
#[derive(Clone, Copy, PartialEq, Eq, Structural, Debug)]
pub enum HighlightLanguage {
    Markdown,
    Html,
    PlainText,
}

/// `c` in ASCII lower case.
pub open spec fn ascii_lower(c: char) -> char {
    if 'A' <= c <= 'Z' {
        ((c as u32) + 32) as char
    } else {
        c
    }
}

/// A text in ASCII lower case.
pub open spec fn ascii_lowercase(s: Seq<char>) -> Seq<char> {
    s.map_values(|c: char| ascii_lower(c))
}

/// The extension of the last component of a `/`-separated path: what follows
/// its last `.`, unless that dot starts the name (or there is none).
pub open spec fn extension_of(path: Seq<char>) -> Seq<char> {
    let name_start = last_index_of(path, '/') + 1;
    let name = path.skip(name_start);
    let dot = last_index_of(name, '.');
    if dot <= 0 { Seq::empty() } else { name.skip(dot + 1) }
}

/// The last index of `c` in `s`, or `-1`.
pub open spec fn last_index_of(s: Seq<char>, c: char) -> int
    decreases s.len(),
{
    if s.len() == 0 {
        -1
    } else if s.last() == c {
        s.len() - 1
    } else {
        last_index_of(s.drop_last(), c)
    }
}

/// The language for a note path: Markdown for `md`, `markdown`, `mdown` and
/// `mkd`, HTML for `html` and `htm` (in any case), plain text otherwise.
pub open spec fn language_for(path: Seq<char>) -> HighlightLanguage {
    let ext = ascii_lowercase(extension_of(path));
    if ext == seq!['m', 'd'] || ext == seq!['m', 'a', 'r', 'k', 'd', 'o', 'w', 'n'] || ext == seq![
        'm',
        'd',
        'o',
        'w',
        'n',
    ] || ext == seq!['m', 'k', 'd'] {
        HighlightLanguage::Markdown
    } else if ext == seq!['h', 't', 'm', 'l'] || ext == seq!['h', 't', 'm'] {
        HighlightLanguage::Html
    } else {
        HighlightLanguage::PlainText
    }
}

/// `c` in ASCII lower case.
pub fn to_ascii_lower(c: char) -> (lower: char)
    ensures
        lower == ascii_lower(c),
{
    if 'A' <= c && c <= 'Z' {
        let v = (c as u32) + 32;
        assert(v <= 0x7f);
        let b = v as u8;
        assert(b as u32 == v);
        b as char
    } else {
        c
    }
}

fn last_index(s: &Vec<char>, c: char) -> (index: Option<usize>)
    ensures
        match index {
            Some(i) => i < s@.len() && i as int == last_index_of(s@, c),
            None => last_index_of(s@, c) == -1,
        },
{
    let mut k = s.len();
    assert(s@.take(k as int) =~= s@);
    while k > 0
        invariant
            k <= s@.len(),
            last_index_of(s@, c) == last_index_of(s@.take(k as int), c),
        decreases k,
    {
        assert(s@.take(k as int).drop_last() =~= s@.take(k - 1));
        if s[k - 1] == c {
            return Some(k - 1);
        }
        k = k - 1;
    }
    None
}

fn equals_literal(s: &Vec<char>, literal: &str) -> (same: bool)
    ensures
        same == (s@ == literal@),
{
    let lit = crate::text::chars_of(literal);
    if s.len() != lit.len() {
        return false;
    }
    let mut i: usize = 0;
    while i < s.len()
        invariant
            s@.len() == lit@.len(),
            lit@ == literal@,
            i <= s@.len(),
            forall|j: int| 0 <= j < i ==> s@[j] == lit@[j],
        decreases s@.len() - i,
    {
        if s[i] != lit[i] {
            return false;
        }
        i = i + 1;
    }
    assert(s@ =~= lit@);
    true
}

/// Chooses the highlighting language of a note from its relative path.
pub fn language_for_path(path: &str) -> (language: HighlightLanguage)
    ensures
        language == language_for(path@),
{
    let chars = crate::text::chars_of(path);
    assert(chars@.take(chars@.len() as int) =~= chars@);
    let total = chars.len();
    let name_start = match last_index(&chars, '/') {
        Some(i) => i + 1,
        None => 0,
    };
    let mut name: Vec<char> = Vec::new();
    let mut i = name_start;
    while i < chars.len()
        invariant
            name_start <= i <= chars@.len(),
            name@ == chars@.subrange(name_start as int, i as int),
        decreases chars@.len() - i,
    {
        name.push(chars[i]);
        i = i + 1;
    }
    assert(name@ =~= chars@.skip(name_start as int));
    assert(name@.take(name@.len() as int) =~= name@);
    let mut ext: Vec<char> = Vec::new();
    match last_index(&name, '.') {
        Some(dot) if dot > 0 => {
            let mut j = dot + 1;
            while j < name.len()
                invariant
                    dot + 1 <= j <= name@.len(),
                    ext@ == ascii_lowercase(name@.subrange(dot + 1, j as int)),
                decreases name@.len() - j,
            {
                let c = name[j];
                let lower = to_ascii_lower(c);
                assert(lower == ascii_lower(c));
                ext.push(lower);
                proof {
                    assert(name@.subrange(dot + 1, j + 1) =~= name@.subrange(dot + 1, j as int).push(c));
                    assert(ascii_lowercase(name@.subrange(dot + 1, j + 1)) =~= ascii_lowercase(
                        name@.subrange(dot + 1, j as int),
                    ).push(ascii_lower(c)));
                }
                j = j + 1;
            }
            assert(name@.subrange(dot + 1, name@.len() as int) =~= name@.skip(dot + 1));
        },
        _ => {
            assert(ascii_lowercase(Seq::<char>::empty()) =~= Seq::<char>::empty());
        },
    }
    proof {
        reveal_strlit("md");
        reveal_strlit("markdown");
        reveal_strlit("mdown");
        reveal_strlit("mkd");
        reveal_strlit("html");
        reveal_strlit("htm");
        assert("md"@ =~= seq!['m', 'd']);
        assert("markdown"@ =~= seq!['m', 'a', 'r', 'k', 'd', 'o', 'w', 'n']);
        assert("mdown"@ =~= seq!['m', 'd', 'o', 'w', 'n']);
        assert("mkd"@ =~= seq!['m', 'k', 'd']);
        assert("html"@ =~= seq!['h', 't', 'm', 'l']);
        assert("htm"@ =~= seq!['h', 't', 'm']);
        assert(name_start as int == last_index_of(path@, '/') + 1);
        assert(ext@ == ascii_lowercase(extension_of(path@)));
    }
    if equals_literal(&ext, "md") || equals_literal(&ext, "markdown") || equals_literal(&ext, "mdown")
        || equals_literal(&ext, "mkd") {
        HighlightLanguage::Markdown
    } else if equals_literal(&ext, "html") || equals_literal(&ext, "htm") {
        HighlightLanguage::Html
    } else {
        HighlightLanguage::PlainText
    }
}

} // verus!
