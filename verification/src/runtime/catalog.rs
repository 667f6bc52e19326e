//! Changes to the repository catalog as the home screen asks for them. Each
//! change is made on a copy, the draft; the caller stores the draft and keeps
//! it only once it is stored, so a failed save leaves the catalog as it was.
use vstd::prelude::*;

use crate::app::home::CatalogSnapshot;
use crate::catalog::{
    blank, catalog_error_text, catalog_wf, canonical_outcome, hyphenated_uuid, id_index, is_blank,
    lemma_id_index_from, lemma_unique_name_index, name_index, repo_views, uuid_text, with_registered,
    with_renamed, without_entry, CanonicalProbe, Catalog, CatalogError, CatalogErrorView, CatalogView,
    RepoEntry,
};
use crate::text::{chars_of, concat, concat3, same_text};
use crate::workspace::paths::{
    components, is_absolute, is_parent, join_below, join_components, joined, joined_below,
    path_components, string_views,
};

verus! {

/// What a change says of an ID that no registration has.
pub open spec fn unregistered_id_text(id: u128) -> Seq<char> {
    "repository ID "@ + hyphenated_uuid(id) + " is not registered"@
}

/// Checks the name of a new registration before any work on disk: it must not
/// be blank, nor the name of a registration already.
pub fn validate_new_name(catalog: &Catalog, name: &str) -> (result: Result<(), CatalogError>)
    ensures
        match result {
            Ok(()) => !is_blank(name@) && name_index(catalog@.repos, name@) is None,
            Err(e) => if is_blank(name@) {
                e@ == CatalogErrorView::EmptyName
            } else {
                name_index(catalog@.repos, name@) is Some && e@ == CatalogErrorView::DuplicateName(
                    name@,
                )
            },
        },
{
    if blank(name) {
        return Err(CatalogError::EmptyName);
    }
    if catalog.has_name(name) {
        return Err(CatalogError::DuplicateName { name: name.to_owned() });
    }
    Ok(())
}

/// The name of the first registration with ID `id`.
pub fn repository_name(catalog: &Catalog, id: u128) -> (result: Result<String, String>)
    ensures
        match id_index(catalog@.repos, id) {
            Some(i) => result matches Ok(n) && n@ == catalog@.repos[i].name,
            None => result matches Err(m) && m@ == unregistered_id_text(id),
        },
{
    match catalog.name_of(id) {
        Some(name) => Ok(name),
        None => Err(concat3("repository ID ", uuid_text(id).as_str(), " is not registered")),
    }
}

/// The catalog with the registration `id` as the default.
pub fn default_draft(catalog: &Catalog, id: u128) -> (result: Result<Catalog, String>)
    requires
        catalog_wf(catalog@),
    ensures
        match id_index(catalog@.repos, id) {
            Some(i) => result matches Ok(draft) && draft@ == (CatalogView {
                default_repo_id: Some(id),
                ..catalog@
            }) && catalog_wf(draft@),
            None => result matches Err(m) && m@ == unregistered_id_text(id),
        },
{
    let name = repository_name(catalog, id)?;
    proof {
        lemma_id_index_from(catalog@.repos, id, 0);
        lemma_unique_name_index(catalog@.repos, id_index(catalog@.repos, id)->0);
    }
    let mut draft = catalog.clone();
    match draft.set_default(name.as_str()) {
        Ok(()) => Ok(draft),
        Err(error) => Err(error.message()),
    }
}

/// The catalog with the registration `id` renamed to `name`. The new name
/// must not be blank, nor the name of another registration.
pub fn rename_draft(catalog: &Catalog, id: u128, name: String) -> (result: Result<Catalog, String>)
    requires
        catalog_wf(catalog@),
    ensures
        match id_index(catalog@.repos, id) {
            Some(i) => {
                let current = catalog@.repos[i].name;
                if is_blank(name@) {
                    result matches Err(m) && m@ == catalog_error_text(CatalogErrorView::EmptyName)
                } else if name@ != current && name_index(catalog@.repos, name@) is Some {
                    result matches Err(m) && m@ == catalog_error_text(
                        CatalogErrorView::DuplicateName(name@),
                    )
                } else {
                    result matches Ok(draft) && draft@ == with_renamed(catalog@, i, name@)
                        && catalog_wf(draft@)
                }
            },
            None => result matches Err(m) && m@ == unregistered_id_text(id),
        },
{
    let current = repository_name(catalog, id)?;
    proof {
        lemma_id_index_from(catalog@.repos, id, 0);
        lemma_unique_name_index(catalog@.repos, id_index(catalog@.repos, id)->0);
    }
    let mut draft = catalog.clone();
    match draft.rename_registration(current.as_str(), name) {
        Ok(()) => Ok(draft),
        Err(error) => Err(error.message()),
    }
}

/// The catalog without the registration `id` (its files stay where they
/// are); the default goes with it.
pub fn unregister_draft(catalog: &Catalog, id: u128) -> (result: Result<Catalog, String>)
    requires
        catalog_wf(catalog@),
    ensures
        match id_index(catalog@.repos, id) {
            Some(i) => result matches Ok(draft) && draft@ == without_entry(catalog@, i) && catalog_wf(
                draft@,
            ),
            None => result matches Err(m) && m@ == unregistered_id_text(id),
        },
{
    let name = repository_name(catalog, id)?;
    proof {
        lemma_id_index_from(catalog@.repos, id, 0);
        lemma_unique_name_index(catalog@.repos, id_index(catalog@.repos, id)->0);
    }
    let mut draft = catalog.clone();
    match draft.unregister(name.as_str()) {
        Ok(_) => Ok(draft),
        Err(error) => Err(error.message()),
    }
}

/// The catalog with the repository at `path` (where resolving it found
/// `location`) registered under `name`, and the new registration.
pub fn register_draft(catalog: &Catalog, name: String, path: &str, location: &CanonicalProbe) -> (result:
    Result<(Catalog, RepoEntry), String>)
    requires
        catalog_wf(catalog@),
    ensures
        match result {
            Ok((draft, entry)) => {
                &&& !is_blank(name@)
                &&& name_index(catalog@.repos, name@) is None
                &&& canonical_outcome(path@, *location) == Ok::<Seq<char>, CatalogErrorView>(
                    entry.path@,
                )
                &&& entry.name@ == name@
                &&& draft@ == with_registered(catalog@, entry@)
                &&& catalog_wf(draft@)
            },
            Err(m) => if is_blank(name@) {
                m@ == catalog_error_text(CatalogErrorView::EmptyName)
            } else if name_index(catalog@.repos, name@) is Some {
                m@ == catalog_error_text(CatalogErrorView::DuplicateName(name@))
            } else {
                canonical_outcome(path@, *location) matches Err(e) && m@ == catalog_error_text(e)
            },
        },
{
    let mut draft = catalog.clone();
    match draft.register(name, path, location) {
        Ok(entry) => Ok((draft, entry)),
        Err(error) => Err(error.message()),
    }
}

/// The registration to select after a change: `selected` while it is
/// registered, else the default.
pub open spec fn selection_after(catalog: CatalogView, selected: u128) -> Option<u128> {
    if id_index(catalog.repos, selected) is Some {
        Some(selected)
    } else {
        catalog.default_repo_id
    }
}

/// What the home screen learns of the catalog after a change.
pub fn snapshot_after(catalog: &Catalog, selected: u128) -> (snapshot: CatalogSnapshot)
    ensures
        repo_views(snapshot.repositories@) == catalog@.repos,
        snapshot.default_repository == catalog@.default_repo_id,
        snapshot.selected_repository == selection_after(catalog@, selected),
{
    let repositories = super::copy_entries(catalog.repositories());
    let selected_repository = match catalog.name_of(selected) {
        Some(_) => Some(selected),
        None => catalog.default_repository_id(),
    };
    CatalogSnapshot {
        repositories,
        default_repository: catalog.default_repository_id(),
        selected_repository,
    }
}

/// The components left once each `..` has taken back the component before
/// it; none when a `..` would climb above the start.
pub open spec fn climbed(cs: Seq<Seq<char>>) -> Option<Seq<Seq<char>>>
    decreases cs.len(),
{
    if cs.len() == 0 {
        Some(Seq::empty())
    } else {
        match climbed(cs.drop_last()) {
            None => None,
            Some(kept) => if is_parent(cs.last()) {
                if kept.len() == 0 {
                    None
                } else {
                    Some(kept.drop_last())
                }
            } else {
                Some(kept.push(cs.last()))
            },
        }
    }
}

/// A repository path made absolute against the current directory, then
/// normalized by its text alone: `.` and empty segments dropped, each `..`
/// taking back one component. None when a `..` climbs above the root.
pub open spec fn lexical_absolute_of(path: Seq<char>, current: Seq<char>) -> Option<Seq<char>> {
    let absolute = if is_absolute(path) {
        path
    } else {
        joined_below(current, path)
    };
    match climbed(components(absolute)) {
        Some(cs) => Some(
            if is_absolute(absolute) {
                seq!['/'] + joined(cs)
            } else {
                joined(cs)
            },
        ),
        None => None,
    }
}

/// What [`lexical_absolute`] says of a path that climbs above its root.
pub open spec fn climbs_above_root_text() -> Seq<char> {
    "repository path traverses above its root"@
}

/// A repository path made absolute against `current_dir` and normalized by its
/// text (see [`lexical_absolute_of`]), before anything on disk is looked at.
pub fn lexical_absolute(path: &str, current_dir: &str) -> (result: Result<String, String>)
    ensures
        match lexical_absolute_of(path@, current_dir@) {
            Some(p) => result matches Ok(s) && s@ == p,
            None => result matches Err(m) && m@ == climbs_above_root_text(),
        },
{
    let path_chars = chars_of(path);
    let absolute = if path_chars.len() > 0 && path_chars[0] == '/' {
        path.to_owned()
    } else {
        join_below(current_dir, path)
    };
    let absolute_chars = chars_of(absolute.as_str());
    let rooted = absolute_chars.len() > 0 && absolute_chars[0] == '/';
    let parts = path_components(absolute.as_str());
    let ghost cs = string_views(parts@);
    proof {
        let absolute_view = if is_absolute(path@) {
            path@
        } else {
            joined_below(current_dir@, path@)
        };
        assert(absolute@ == absolute_view);
        assert(cs == components(absolute_view));
    }
    let mut kept: Vec<String> = Vec::new();
    let mut k: usize = 0;
    proof {
        reveal_strlit("..");
        assert(cs.take(0) =~= Seq::<Seq<char>>::empty());
        assert(string_views(kept@) =~= Seq::<Seq<char>>::empty());
    }
    while k < parts.len()
        invariant
            k <= parts@.len(),
            cs == string_views(parts@),
            cs == components(absolute@),
            absolute@ == (if is_absolute(path@) {
                path@
            } else {
                joined_below(current_dir@, path@)
            }),
            climbed(cs.take(k as int)) == Some(string_views(kept@)),
        decreases parts@.len() - k,
    {
        proof {
            reveal_strlit("..");
            assert(cs.take(k + 1).drop_last() =~= cs.take(k as int));
            assert(cs.take(k + 1).last() == parts@[k as int]@);
        }
        let parent = same_text(parts[k].as_str(), "..");
        proof {
            assert(".."@ =~= seq!['.', '.']);
            assert(cs[k as int] == parts@[k as int]@);
            assert(parent == is_parent(cs[k as int]));
        }
        if parent {
            if kept.len() == 0 {
                proof {
                    assert(string_views(kept@) =~= Seq::<Seq<char>>::empty());
                    assert(cs[k as int] == parts@[k as int]@);
                    assert(".."@ =~= seq!['.', '.']);
                    lemma_climbed_stuck(cs, k as int);
                }
                return Err("repository path traverses above its root".to_owned());
            }
            let ghost before = kept@;
            kept.pop();
            proof {
                assert(string_views(kept@) =~= string_views(before).drop_last());
            }
        } else {
            let ghost before = kept@;
            kept.push(parts[k].clone());
            proof {
                assert(string_views(kept@) =~= string_views(before).push(parts@[k as int]@));
            }
        }
        k = k + 1;
    }
    proof {
        assert(cs.take(parts@.len() as int) =~= cs);
    }
    let tail = join_components(&kept);
    proof {
        reveal_strlit("/");
        assert("/"@ =~= seq!['/']);
        let absolute_view = if is_absolute(path@) {
            path@
        } else {
            joined_below(current_dir@, path@)
        };
        assert(absolute@ == absolute_view);
        assert(rooted == is_absolute(absolute_view));
    }
    if rooted {
        Ok(concat("/", tail.as_str()))
    } else {
        Ok(tail)
    }
}

/// Once a prefix climbs above the start, the whole sequence does.
proof fn lemma_climbed_stuck(cs: Seq<Seq<char>>, k: int)
    requires
        0 <= k < cs.len(),
        climbed(cs.take(k)) == Some(Seq::<Seq<char>>::empty()),
        is_parent(cs[k]),
    ensures
        climbed(cs) is None,
    decreases cs.len() - k,
{
    assert(cs.take(k + 1).drop_last() =~= cs.take(k));
    assert(climbed(cs.take(k + 1)) is None);
    lemma_climbed_none_extends(cs, k + 1);
}

/// A sequence whose prefix climbs above the start climbs above it too.
proof fn lemma_climbed_none_extends(cs: Seq<Seq<char>>, k: int)
    requires
        0 <= k <= cs.len(),
        climbed(cs.take(k)) is None,
    ensures
        climbed(cs) is None,
    decreases cs.len() - k,
{
    if k == cs.len() {
        assert(cs.take(k) =~= cs);
    } else {
        assert(cs.take(k + 1).drop_last() =~= cs.take(k));
        lemma_climbed_none_extends(cs, k + 1);
    }
}

} // verus!
