//! Repositories: which directory above a project is its repository.
use crate::command::texts;
use crate::model::option_text;
use vstd::prelude::*;

verus! {

/// A directory that may be a repository: its path, and whether it holds a
/// `.git` entry.
#[derive(Debug, Clone)]
pub struct RepoCandidate {
    pub path: String,
    pub has_git_entry: bool,
}

/// The path of the first candidate that holds a `.git` entry, or none
/// where no candidate does.
pub open spec fn nearest_repository(candidates: Seq<RepoCandidate>) -> Option<Seq<char>>
    decreases candidates.len(),
{
    if candidates.len() == 0 {
        None
    } else if candidates[0].has_git_entry {
        Some(candidates[0].path@)
    } else {
        nearest_repository(candidates.drop_first())
    }
}

/// The candidate that [`nearest_repository`] picks holds a `.git` entry,
/// and no candidate before it does; where it picks none, no candidate does.
pub proof fn lemma_nearest_repository(candidates: Seq<RepoCandidate>)
    ensures
        match nearest_repository(candidates) {
            Some(path) => exists|i: int|
                0 <= i < candidates.len() && (#[trigger] candidates[i]).has_git_entry
                    && candidates[i].path@ == path && forall|k: int|
                    0 <= k < i ==> !(#[trigger] candidates[k]).has_git_entry,
            None => forall|i: int|
                0 <= i < candidates.len() ==> !(#[trigger] candidates[i]).has_git_entry,
        },
    decreases candidates.len(),
{
    if candidates.len() == 0 {
    } else if candidates[0].has_git_entry {
        assert(candidates[0].has_git_entry && candidates[0].path@ == candidates[0].path@);
    } else {
        let rest = candidates.drop_first();
        lemma_nearest_repository(rest);
        match nearest_repository(rest) {
            Some(path) => {
                let i = choose|i: int|
                    0 <= i < rest.len() && (#[trigger] rest[i]).has_git_entry && rest[i].path@
                        == path && forall|k: int|
                        0 <= k < i ==> !(#[trigger] rest[k]).has_git_entry;
                assert(candidates[i + 1] == rest[i]);
                assert forall|k: int| 0 <= k < i + 1 implies !(
                #[trigger] candidates[k]).has_git_entry by {
                    if k > 0 {
                        assert(candidates[k] == rest[k - 1]);
                    }
                }
            },
            None => {
                assert forall|i: int| 0 <= i < candidates.len() implies !(
                #[trigger] candidates[i]).has_git_entry by {
                    if i > 0 {
                        assert(candidates[i] == rest[i - 1]);
                    }
                }
            },
        }
    }
}

/// The repository that a project belongs to.
///
/// The candidates are the directory of the project and the directories
/// above it, the nearest first. The repository is the nearest of them that
/// holds a `.git` entry.
pub fn find_git_repo_path(candidates: &Vec<RepoCandidate>) -> (found: Option<String>)
    ensures
        option_text(found) == nearest_repository(candidates@),
{
    let mut i: usize = 0;
    assert(candidates@.skip(0) == candidates@);
    while i < candidates.len()
        invariant
            i <= candidates.len(),
            nearest_repository(candidates@) == nearest_repository(candidates@.skip(i as int)),
        decreases candidates.len() - i,
    {
        if candidates[i].has_git_entry {
            assert(candidates@.skip(i as int)[0] == candidates@[i as int]);
            return Some(candidates[i].path.clone());
        }
        assert(candidates@.skip(i as int)[0] == candidates@[i as int]);
        assert(candidates@.skip(i as int).drop_first() == candidates@.skip(i + 1));
        i = i + 1;
    }
    assert(candidates@.skip(i as int).len() == 0);
    None
}

/// The references under which the upstream of a branch is looked for, in
/// this order: the branch of that name at the remote `origin`, then the one
/// at the remote `upstream`.
pub open spec fn upstream_references(branch: Seq<char>) -> Seq<Seq<char>> {
    seq!["refs/remotes/origin/"@ + branch, "refs/remotes/upstream/"@ + branch]
}

/// Computes [`upstream_references`].
pub fn upstream_reference_names(branch: &str) -> (names: Vec<String>)
    ensures
        texts(names@) == upstream_references(branch@),
{
    let mut names: Vec<String> = Vec::new();
    names.push("refs/remotes/origin/".to_owned().concat(branch));
    names.push("refs/remotes/upstream/".to_owned().concat(branch));
    assert(texts(names@) == upstream_references(branch@));
    names
}

} // verus!
