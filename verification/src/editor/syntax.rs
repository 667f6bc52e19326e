//! Highlighted spans of a note's text: syntect styles each line, and the
//! spans record, by character index, which style covers which part of the
//! text. The spans of the last text are kept until the text changes.
use vstd::prelude::*;

use syntect::easy::HighlightLines;
use syntect::util::LinesWithEndings;
use syntect::highlighting::{FontStyle, Style, Theme, ThemeSet};
use syntect::parsing::SyntaxSet;

use super::highlight::HighlightLanguage;
use crate::text::{chars_of, same_text};

verus! {

#[verifier::external_type_specification]
#[verifier::external_body]
pub struct ExSyntaxSet(SyntaxSet);

#[verifier::external_type_specification]
#[verifier::external_body]
pub struct ExTheme(Theme);

#[verifier::external_type_specification]
#[verifier::external_body]
pub struct ExThemeSet(ThemeSet);

#[verifier::external_type_specification]
#[verifier::external_body]
pub struct ExStyle(Style);

/// The colours (red, green, blue, alpha) and font of a piece of text.
#[derive(Clone, Copy, Debug, PartialEq, Eq)]
pub struct HighlightStyle {
    pub foreground: [u8; 4],
    pub background: [u8; 4],
    pub bold: bool,
    pub italic: bool,
    pub underline: bool,
}

/// A style over a range of character indices.
#[derive(Debug, PartialEq, Eq)]
pub struct HighlightSpan {
    pub range: std::ops::Range<usize>,
    pub style: HighlightStyle,
}

impl Clone for HighlightSpan {
    fn clone(&self) -> (copy: Self)
        ensures
            copy == *self,
    {
        HighlightSpan { range: self.range.start..self.range.end, style: self.style }
    }
}

/// `SyntaxSet::load_defaults_newlines`: the syntaxes bundled with syntect,
/// for lines that keep their line ending.
#[verifier::external_body]
fn bundled_syntaxes() -> SyntaxSet {
    SyntaxSet::load_defaults_newlines()
}

/// `ThemeSet::load_defaults`: the themes bundled with syntect.
#[verifier::external_body]
fn bundled_themes() -> ThemeSet {
    ThemeSet::load_defaults()
}

/// The theme of that name in the set, if any (`BTreeMap::get` on its themes).
#[verifier::external_body]
fn theme_named(themes: &ThemeSet, name: &str) -> Option<Theme> {
    themes.themes.get(name).cloned()
}

/// The first theme of the set, if any (in the order of its names).
#[verifier::external_body]
fn first_theme(themes: &ThemeSet) -> Option<Theme> {
    themes.themes.values().next().cloned()
}

/// `Theme::default`: a theme without rules.
#[verifier::external_body]
fn plain_theme() -> Theme {
    Theme::default()
}

/// A syntect style as colours and font flags (`FontStyle::contains` for each
/// flag).
#[verifier::external_body]
fn style_of(style: Style) -> HighlightStyle {
    let f = style.foreground;
    let b = style.background;
    HighlightStyle {
        foreground: [f.r, f.g, f.b, f.a],
        background: [b.r, b.g, b.b, b.a],
        bold: style.font_style.contains(FontStyle::BOLD),
        italic: style.font_style.contains(FontStyle::ITALIC),
        underline: style.font_style.contains(FontStyle::UNDERLINE),
    }
}

/// Styled pieces by the characters they hold.
pub open spec fn piece_views(pieces: Seq<(HighlightStyle, String)>) -> Seq<(HighlightStyle, Seq<char>)> {
    pieces.map_values(|piece: (HighlightStyle, String)| (piece.0, piece.1@))
}

/// The concatenation of the pieces' texts.
pub open spec fn joined_pieces(pieces: Seq<(HighlightStyle, Seq<char>)>) -> Seq<char>
    decreases pieces.len(),
{
    if pieces.len() == 0 {
        Seq::empty()
    } else {
        joined_pieces(pieces.drop_last()) + pieces.last().1
    }
}

/// What syntect makes of a whole text, with the bundled syntax for files of
/// that extension and the theme of [`Highlighter::bundled`]: the styled pieces
/// of its lines, line after line, or `None` when there is no such syntax or a
/// line cannot be parsed.
pub uninterp spec fn syntect_regions(extension: Seq<char>, text: Seq<char>) -> Option<
    Seq<(HighlightStyle, Seq<char>)>,
>;

/// The pieces of a call's result by their characters, if it gave any.
pub open spec fn regions_view(pieces: Option<Vec<(HighlightStyle, String)>>) -> Option<
    Seq<(HighlightStyle, Seq<char>)>,
> {
    match pieces {
        Some(p) => Some(piece_views(p@)),
        None => None,
    }
}

/// syntect on a whole text: `SyntaxSet::find_syntax_by_extension`, then
/// `HighlightLines::new` with the highlighter's theme, then
/// `HighlightLines::highlight_line` on each line of `LinesWithEndings`, each
/// piece's style taken by [`style_of`]. The result is named
/// [`syntect_regions`] of the extension and the text: a [`Highlighter`] is
/// only ever made by [`Highlighter::bundled`], so its syntaxes and theme are
/// always the same. As syntect documents for each line, the pieces put
/// together give the text back.
#[verifier::external_body]
fn syntect_pieces(highlighter: &Highlighter, extension: &str, text: &str) -> (pieces: Option<
    Vec<(HighlightStyle, String)>,
>)
    ensures
        regions_view(pieces) == syntect_regions(extension@, text@),
        pieces is Some ==> joined_pieces(piece_views(pieces->0@)) == text@,
{
    let syntax = highlighter.syntaxes.find_syntax_by_extension(extension)?;
    let mut lines = HighlightLines::new(syntax, &highlighter.theme);
    let mut pieces = Vec::new();
    for line in LinesWithEndings::from(text) {
        for (style, piece) in lines.highlight_line(line, &highlighter.syntaxes).ok()? {
            pieces.push((style_of(style), piece.to_owned()));
        }
    }
    Some(pieces)
}

/// The spans tile a stretch of text from its start: each is non-empty and
/// begins where the one before it ends, the first at 0.
pub open spec fn tiled(spans: Seq<HighlightSpan>) -> bool {
    &&& forall|i: int| 0 <= i < spans.len() ==> (#[trigger] spans[i]).range.start < spans[i].range.end
    &&& forall|i: int| 0 < i < spans.len() ==> (#[trigger] spans[i]).range.start == spans[i - 1].range.end
    &&& spans.len() > 0 ==> spans[0].range.start == 0
}

/// Where the spans end: the end of the last one, or 0.
pub open spec fn reach(spans: Seq<HighlightSpan>) -> int {
    if spans.len() == 0 {
        0
    } else {
        spans.last().range.end as int
    }
}

/// The theme to highlight with: the one found by name, else the first one;
/// none when neither was found (a theme without rules is used then).
pub fn preferred_theme(named: Option<Theme>, first: Option<Theme>) -> (theme: Option<Theme>)
    ensures
        theme == (match named {
            Some(t) => Some(t),
            None => first,
        }),
{
    match named {
        Some(theme) => Some(theme),
        None => first,
    }
}

/// The syntaxes and the theme that highlighting uses.
pub struct Highlighter {
    syntaxes: SyntaxSet,
    theme: Theme,
}

impl Highlighter {
    /// The bundled syntaxes, with the `base16-ocean.dark` theme (or else the
    /// first bundled theme, or else one without rules; see [`preferred_theme`]).
    /// What syntect bundles is syntect's: nothing here states it.
    pub fn bundled() -> (highlighter: Highlighter) {
        let themes = bundled_themes();
        let named = theme_named(&themes, "base16-ocean.dark");
        let first = first_theme(&themes);
        let theme = match preferred_theme(named, first) {
            Some(theme) => theme,
            None => plain_theme(),
        };
        Highlighter { syntaxes: bundled_syntaxes(), theme }
    }
}

/// The spans of styled pieces laid one after another from character 0: each
/// piece with text gets the range of its characters and its style; a piece
/// without text gets none.
pub open spec fn pieces_spans(pieces: Seq<(HighlightStyle, Seq<char>)>) -> Seq<HighlightSpan>
    decreases pieces.len(),
{
    if pieces.len() == 0 {
        Seq::empty()
    } else {
        let rest = pieces_spans(pieces.drop_last());
        let start = joined_pieces(pieces.drop_last()).len();
        let piece = pieces.last();
        if piece.1.len() == 0 {
            rest
        } else {
            rest.push(
                HighlightSpan {
                    range: std::ops::Range { start: start as usize, end: (start + piece.1.len()) as usize },
                    style: piece.0,
                },
            )
        }
    }
}

/// The spans of styled pieces laid one after another (see [`pieces_spans`]).
pub fn spans_of_pieces(pieces: &Vec<(HighlightStyle, String)>) -> (spans: Vec<HighlightSpan>)
    requires
        joined_pieces(piece_views(pieces@)).len() <= usize::MAX,
    ensures
        spans@ == pieces_spans(piece_views(pieces@)),
{
    let ghost views = piece_views(pieces@);
    let mut spans: Vec<HighlightSpan> = Vec::new();
    let mut start: usize = 0;
    let mut j: usize = 0;
    proof {
        assert(views.take(0) =~= Seq::<(HighlightStyle, Seq<char>)>::empty());
    }
    while j < pieces.len()
        invariant
            j <= pieces@.len(),
            views == piece_views(pieces@),
            views.len() == pieces@.len(),
            joined_pieces(views).len() <= usize::MAX,
            start == joined_pieces(views.take(j as int)).len(),
            spans@ == pieces_spans(views.take(j as int)),
        decreases pieces@.len() - j,
    {
        proof {
            lemma_joined_pieces_prefix(views, j as int);
            assert(views.take(j + 1).drop_last() =~= views.take(j as int));
            assert(views.take(j + 1).last() == views[j as int]);
            assert(views[j as int] == (pieces@[j as int].0, pieces@[j as int].1@));
        }
        let length = chars_of(pieces[j].1.as_str()).len();
        if length > 0 {
            spans.push(HighlightSpan { range: start..start + length, style: pieces[j].0 });
            start = start + length;
        }
        j = j + 1;
    }
    proof {
        assert(views.take(pieces@.len() as int) =~= views);
    }
    spans
}

/// The spans of pieces tile them from character 0 and reach as far as the
/// pieces' text.
pub proof fn lemma_pieces_spans_tiled(pieces: Seq<(HighlightStyle, Seq<char>)>)
    requires
        joined_pieces(pieces).len() <= usize::MAX,
    ensures
        tiled(pieces_spans(pieces)),
        reach(pieces_spans(pieces)) == joined_pieces(pieces).len(),
    decreases pieces.len(),
{
    if pieces.len() > 0 {
        let prev = pieces.drop_last();
        assert(joined_pieces(pieces) == joined_pieces(prev) + pieces.last().1);
        lemma_pieces_spans_tiled(prev);
        let rest = pieces_spans(prev);
        let spans = pieces_spans(pieces);
        if pieces.last().1.len() > 0 {
            assert forall|i: int| 0 < i < spans.len() implies (#[trigger] spans[i]).range.start
                == spans[i - 1].range.end by {
                if i < spans.len() - 1 {
                    assert(spans[i] == rest[i] && spans[i - 1] == rest[i - 1]);
                }
            }
            assert forall|i: int| 0 <= i < spans.len() implies (#[trigger] spans[i]).range.start
                < spans[i].range.end by {
                if i < spans.len() - 1 {
                    assert(spans[i] == rest[i]);
                }
            }
        }
    }
}

/// The extension whose bundled syntax highlights a language.
pub open spec fn extension_of(language: HighlightLanguage) -> Seq<char> {
    match language {
        HighlightLanguage::Markdown => seq!['m', 'd'],
        HighlightLanguage::Html => seq!['h', 't', 'm', 'l'],
        HighlightLanguage::PlainText => Seq::empty(),
    }
}

/// The spans of a text in a language: none for plain text or an empty text;
/// otherwise those of syntect's pieces for the language's extension (see
/// [`pieces_spans`]), and none when syntect gives no pieces.
pub open spec fn highlighted(language: HighlightLanguage, text: Seq<char>) -> Seq<HighlightSpan> {
    if language == HighlightLanguage::PlainText || text.len() == 0 {
        Seq::empty()
    } else {
        match syntect_regions(extension_of(language), text) {
            Some(pieces) => pieces_spans(pieces),
            None => Seq::empty(),
        }
    }
}

/// What a highlight of `text` in `language` gives: the spans of
/// [`highlighted`], which tile the text from its start and, when there are
/// any, reach its end.
pub open spec fn highlights_of(language: HighlightLanguage, text: Seq<char>, spans: Seq<HighlightSpan>) -> bool {
    &&& spans == highlighted(language, text)
    &&& tiled(spans)
    &&& spans.len() > 0 ==> reach(spans) == text.len()
}

/// Highlights a text (see [`highlighted`]): syntect styles it line by line
/// with the syntax for the `md` or `html` extension and the highlighter's
/// theme, and the spans are those of all the styled pieces laid one after
/// another.
pub fn highlight(language: HighlightLanguage, text: &str, highlighter: &Highlighter) -> (spans: Vec<
    HighlightSpan,
>)
    ensures
        highlights_of(language, text@, spans@),
{
    proof {
        reveal_strlit("md");
        reveal_strlit("html");
    }
    let n = chars_of(text).len();
    if n == 0 {
        return Vec::new();
    }
    let extension = match language {
        HighlightLanguage::Markdown => "md",
        HighlightLanguage::Html => "html",
        HighlightLanguage::PlainText => {
            return Vec::new();
        },
    };
    assert(extension@ == extension_of(language));
    match syntect_pieces(highlighter, extension, text) {
        Some(pieces) => {
            proof {
                lemma_pieces_spans_tiled(piece_views(pieces@));
            }
            let spans = spans_of_pieces(&pieces);
            assert(spans@ == highlighted(language, text@));
            spans
        },
        None => Vec::new(),
    }
}

/// Putting together more pieces gives no less text.
proof fn lemma_joined_pieces_prefix(pieces: Seq<(HighlightStyle, Seq<char>)>, j: int)
    requires
        0 <= j < pieces.len(),
    ensures
        joined_pieces(pieces.take(j)).len() + pieces[j].1.len() <= joined_pieces(pieces).len(),
    decreases pieces.len(),
{
    if j == pieces.len() - 1 {
        assert(pieces.take(j) =~= pieces.drop_last());
    } else {
        lemma_joined_pieces_prefix(pieces.drop_last(), j);
        assert(pieces.drop_last().take(j) =~= pieces.take(j));
    }
}

/// The spans of the last text highlighted, kept until the text changes; the
/// syntaxes and theme are loaded on the first use.
pub struct HighlightCache {
    language: HighlightLanguage,
    cached_text: Option<String>,
    spans: Vec<HighlightSpan>,
    highlighter: Option<Highlighter>,
}

impl HighlightCache {
    /// The kept spans are the highlight of the kept text.
    pub closed spec fn wf(&self) -> bool {
        self.cached_text matches Some(t) ==> highlights_of(self.language, t@, self.spans@)
    }

    /// The language highlighted.
    pub closed spec fn language_view(&self) -> HighlightLanguage {
        self.language
    }

    /// The text whose spans are kept, if any.
    pub closed spec fn cached_view(&self) -> Option<Seq<char>> {
        match self.cached_text {
            Some(t) => Some(t@),
            None => None,
        }
    }

    /// The kept spans.
    pub closed spec fn spans_view(&self) -> Seq<HighlightSpan> {
        self.spans@
    }

    /// A cache for a language, with nothing kept yet.
    pub fn for_language(language: HighlightLanguage) -> (cache: HighlightCache)
        ensures
            cache.wf(),
            cache.language_view() == language,
            cache.cached_view() is None,
    {
        HighlightCache { language, cached_text: None, spans: Vec::new(), highlighter: None }
    }

    /// The language highlighted.
    pub fn language(&self) -> (language: HighlightLanguage)
        ensures
            language == self.language_view(),
    {
        self.language
    }

    /// The spans of `text`: those kept when `text` is the text last
    /// highlighted, a fresh highlight otherwise.
    pub fn spans(&mut self, text: &str) -> (spans: &[HighlightSpan])
        requires
            old(self).wf(),
        ensures
            final(self).wf(),
            final(self).language_view() == old(self).language_view(),
            final(self).cached_view() == Some(text@),
            spans@ == final(self).spans_view(),
            old(self).cached_view() == Some(text@) ==> final(self).spans_view() == old(
                self,
            ).spans_view(),
            highlights_of(old(self).language_view(), text@, spans@),
    {
        let fresh = match &self.cached_text {
            Some(cached) => !same_text(cached.as_str(), text),
            None => true,
        };
        if fresh {
            if self.highlighter.is_none() {
                self.highlighter = Some(Highlighter::bundled());
            }
            let spans = match &self.highlighter {
                Some(h) => highlight(self.language, text, h),
                None => Vec::new(),
            };
            self.spans = spans;
            self.cached_text = Some(text.to_owned());
        }
        self.spans.as_slice()
    }
}

} // verus!
