//! What the home screen lists: the registered repositories, one row each,
//! and what it tells the user when none is registered, none is the default, or
//! a note from the command line waits.
use vstd::prelude::*;

use crate::app::home::{DefaultChoiceState, HomeState, RepositoryAvailability};
use crate::catalog::RepoEntry;
use crate::text::{append, chars_of, concat, string_of};

verus! {

/// How a line of the home screen is drawn.
#[derive(Clone, Copy, PartialEq, Eq, Structural, Debug)]
pub enum HomeLineStyle {
    Plain,
    Bold,
    Warning,
    Selected,
    Disabled,
}

/// A line of the home screen.
#[derive(Debug, PartialEq, Eq)]
pub struct HomeLine {
    pub text: String,
    pub style: HomeLineStyle,
}

/// The texts and styles of lines.
pub open spec fn home_line_views(lines: Seq<HomeLine>) -> Seq<(Seq<char>, HomeLineStyle)> {
    lines.map_values(|l: HomeLine| (l.text@, l.style))
}

/// `n` spaces.
pub open spec fn spaces(n: nat) -> Seq<char>
    decreases n,
{
    if n == 0 {
        Seq::empty()
    } else {
        spaces((n - 1) as nat).push(' ')
    }
}

/// A text padded with spaces on the right to `width` characters (left as it
/// is when it is that long already).
pub open spec fn padded(s: Seq<char>, width: nat) -> Seq<char> {
    if s.len() < width {
        s + spaces((width - s.len()) as nat)
    } else {
        s
    }
}

/// The row of a repository: a `>` when it is selected, its name, whether it
/// is the default, whether it can be opened, and its path, in columns.
pub open spec fn repository_row(
    name: Seq<char>,
    path: Seq<char>,
    selected: bool,
    default: bool,
    available: bool,
) -> Seq<char> {
    " "@ + (if selected {
        ">"@
    } else {
        " "@
    }) + " "@ + padded(name, 18) + "  "@ + padded(
        if default {
            "default"@
        } else {
            "       "@
        },
        7,
    ) + "  "@ + padded(
        if available {
            "ready"@
        } else {
            "missing · disabled"@
        },
        18,
    ) + "  "@ + path
}

/// How the row of a repository is drawn: highlighted when selected, dimmed
/// when it cannot be opened.
pub open spec fn row_style(selected: bool, available: bool) -> HomeLineStyle {
    if selected {
        HomeLineStyle::Selected
    } else if available {
        HomeLineStyle::Plain
    } else {
        HomeLineStyle::Disabled
    }
}

/// Whether the `i`-th repository can be opened.
pub open spec fn is_available(availability: Seq<RepositoryAvailability>, i: int) -> bool {
    0 <= i < availability.len() && availability[i] == RepositoryAvailability::Available
}

/// The rows of the first `n` repositories.
pub open spec fn repository_rows(home: HomeState, n: int) -> Seq<(Seq<char>, HomeLineStyle)>
    decreases n,
{
    if n <= 0 {
        Seq::empty()
    } else {
        let i = n - 1;
        let r = home.repositories@[i];
        let selected = home.selected == Some(i as usize);
        let available = is_available(home.repository_availability@, i);
        repository_rows(home, i).push(
            (
                repository_row(
                    r.name@,
                    r.path@,
                    selected,
                    home.default_repository == Some(r.id),
                    available,
                ),
                row_style(selected, available),
            ),
        )
    }
}

/// What the line about a waiting note starts with.
pub open spec fn guidance(choice: DefaultChoiceState) -> Seq<char> {
    match choice {
        DefaultChoiceState::AwaitingSelection => "Choose a repository to resume"@,
        DefaultChoiceState::ResumingPendingNote { .. } => "Opening pending note"@,
        DefaultChoiceState::NotNeeded => "Pending note"@,
    }
}

/// The lines of the home screen.
pub open spec fn home_lines_of(home: HomeState) -> Seq<(Seq<char>, HomeLineStyle)> {
    if home.repositories@.len() == 0 {
        let base = seq![
            (Seq::<char>::empty(), HomeLineStyle::Plain),
            ("  No repositories registered yet."@, HomeLineStyle::Bold),
            (Seq::<char>::empty(), HomeLineStyle::Plain),
            ("  Create a repository with [c] or register an existing one with [a]."@, HomeLineStyle::Plain),
            ("  Carnet will mark the first repository as your default."@, HomeLineStyle::Plain),
        ];
        match home.pending_note {
            Some(note) => base + seq![
                (Seq::<char>::empty(), HomeLineStyle::Plain),
                ("  Choose a repository to resume: "@ + note@, HomeLineStyle::Warning),
            ],
            None => base,
        }
    } else {
        let listed = seq![("  Registered repositories"@, HomeLineStyle::Bold)] + repository_rows(
            home,
            home.repositories@.len() as int,
        ) + seq![(Seq::<char>::empty(), HomeLineStyle::Plain)];
        let warned = if home.default_repository is None {
            listed.push(("  No default repository. Select one and press [d]."@, HomeLineStyle::Warning))
        } else {
            listed
        };
        match home.pending_note {
            Some(note) => warned.push(("  "@ + guidance(home.default_choice) + ": "@ + note@, HomeLineStyle::Plain)),
            None => warned,
        }
    }
}

fn line(text: &str, style: HomeLineStyle) -> (l: HomeLine)
    ensures
        l.text@ == text@,
        l.style == style,
{
    HomeLine { text: text.to_owned(), style }
}

/// `s` padded on the right with spaces to `width` characters.
fn push_padded(out: &mut Vec<char>, s: &str, width: usize)
    ensures
        final(out)@ == old(out)@ + padded(s@, width as nat),
{
    let cs = chars_of(s);
    append(out, s);
    if cs.len() < width {
        let mut k: usize = cs.len();
        let ghost base = old(out)@ + s@;
        while k < width
            invariant
                cs@ == s@,
                cs@.len() <= k <= width,
                out@ == base + spaces((k - cs@.len()) as nat),
            decreases width - k,
        {
            out.push(' ');
            k = k + 1;
        }
    }
}

/// The row of a repository (see [`repository_row`]).
fn row_text(repository: &RepoEntry, selected: bool, default: bool, available: bool) -> (text: String)
    ensures
        text@ == repository_row(repository.name@, repository.path@, selected, default, available),
{
    let mut out: Vec<char> = Vec::new();
    append(&mut out, " ");
    append(&mut out, if selected { ">" } else { " " });
    append(&mut out, " ");
    push_padded(&mut out, repository.name.as_str(), 18);
    append(&mut out, "  ");
    push_padded(&mut out, if default { "default" } else { "       " }, 7);
    append(&mut out, "  ");
    push_padded(&mut out, if available { "ready" } else { "missing · disabled" }, 18);
    append(&mut out, "  ");
    append(&mut out, repository.path.as_str());
    string_of(out.as_slice())
}

/// The lines of the home screen (see [`home_lines_of`]).
pub fn home_lines(home: &HomeState) -> (lines: Vec<HomeLine>)
    ensures
        home_line_views(lines@) == home_lines_of(*home),
{
    let mut lines: Vec<HomeLine> = Vec::new();
    if home.repositories.len() == 0 {
        lines.push(line("", HomeLineStyle::Plain));
        lines.push(line("  No repositories registered yet.", HomeLineStyle::Bold));
        lines.push(line("", HomeLineStyle::Plain));
        lines.push(line("  Create a repository with [c] or register an existing one with [a].", HomeLineStyle::Plain));
        lines.push(line("  Carnet will mark the first repository as your default.", HomeLineStyle::Plain));
        match &home.pending_note {
            Some(note) => {
                lines.push(line("", HomeLineStyle::Plain));
                lines.push(HomeLine { text: concat("  Choose a repository to resume: ", note.as_str()), style: HomeLineStyle::Warning });
            },
            None => {},
        }
        proof {
            reveal_strlit("");
            assert(""@ =~= Seq::<char>::empty());
            assert(home_line_views(lines@) =~= home_lines_of(*home));
        }
        return lines;
    }
    lines.push(line("  Registered repositories", HomeLineStyle::Bold));
    let mut i: usize = 0;
    proof {
        assert(home_line_views(lines@) =~= seq![("  Registered repositories"@, HomeLineStyle::Bold)] + repository_rows(*home, 0));
    }
    while i < home.repositories.len()
        invariant
            i <= home.repositories@.len(),
            home_line_views(lines@) == seq![("  Registered repositories"@, HomeLineStyle::Bold)] + repository_rows(*home, i as int),
        decreases home.repositories@.len() - i,
    {
        let repository = &home.repositories[i];
        let selected = match home.selected {
            Some(s) => s == i,
            None => false,
        };
        let available = i < home.repository_availability.len() && match home.repository_availability[i] {
            RepositoryAvailability::Available => true,
            RepositoryAvailability::MissingOrInvalid => false,
        };
        let default = match home.default_repository {
            Some(d) => d == repository.id,
            None => false,
        };
        let style = if selected {
            HomeLineStyle::Selected
        } else if available {
            HomeLineStyle::Plain
        } else {
            HomeLineStyle::Disabled
        };
        let ghost before = lines@;
        lines.push(HomeLine { text: row_text(repository, selected, default, available), style });
        proof {
            assert(home_line_views(lines@) =~= home_line_views(before).push(home_line_views(lines@).last()));
            assert(home_line_views(lines@) =~= seq![("  Registered repositories"@, HomeLineStyle::Bold)] + repository_rows(*home, i + 1));
        }
        i = i + 1;
    }
    lines.push(line("", HomeLineStyle::Plain));
    if home.default_repository.is_none() {
        lines.push(line("  No default repository. Select one and press [d].", HomeLineStyle::Warning));
    }
    match &home.pending_note {
        Some(note) => {
            let start = match home.default_choice {
                DefaultChoiceState::AwaitingSelection => "Choose a repository to resume",
                DefaultChoiceState::ResumingPendingNote { .. } => "Opening pending note",
                DefaultChoiceState::NotNeeded => "Pending note",
            };
            let mut out: Vec<char> = Vec::new();
            append(&mut out, "  ");
            append(&mut out, start);
            append(&mut out, ": ");
            append(&mut out, note.as_str());
            lines.push(HomeLine { text: string_of(out.as_slice()), style: HomeLineStyle::Plain });
        },
        None => {},
    }
    proof {
        reveal_strlit("");
        assert(""@ =~= Seq::<char>::empty());
        assert(home_line_views(lines@) =~= home_lines_of(*home));
    }
    lines
}

} // verus!
