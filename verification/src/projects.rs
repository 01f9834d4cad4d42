//! Projects: what a directory is taken for, given what was found in it.
//!
//! Nothing here looks at a disk. The caller says whether the path exists,
//! what its last component is and which files the directory holds.
use crate::command::texts;
use crate::git::{find_git_repo_path, nearest_repository, RepoCandidate};
use crate::model::option_text;
use vstd::prelude::*;

verus! {

/// The rules by which a directory is taken for a project.
pub struct ProjectManager;

/// The names of the files that tell the kind of a project, in the order in
/// which they are looked for.
pub open spec fn marker_names() -> Seq<Seq<char>> {
    seq![
        "package.json"@,
        "Cargo.toml"@,
        "requirements.txt"@,
        "pyproject.toml"@,
        "pom.xml"@,
        "go.mod"@,
    ]
}

/// The kind of project that a directory with the files `files` holds: the
/// first in this list whose marker file is there, or none.
pub open spec fn detected_type(files: Seq<Seq<char>>) -> Option<Seq<char>> {
    if files.contains("package.json"@) {
        Some("Node.js"@)
    } else if files.contains("Cargo.toml"@) {
        Some("Rust"@)
    } else if files.contains("requirements.txt"@) || files.contains("pyproject.toml"@) {
        Some("Python"@)
    } else if files.contains("pom.xml"@) {
        Some("Java/Maven"@)
    } else if files.contains("go.mod"@) {
        Some("Go"@)
    } else {
        None
    }
}

/// Whether a path can be the directory of a project: it has to exist and
/// to be a directory. Otherwise the error says which of the two fails.
pub open spec fn path_validation(exists: bool, is_dir: bool) -> Result<(), Seq<char>> {
    if !exists {
        Err("Path does not exist"@)
    } else if !is_dir {
        Err("Path is not a directory"@)
    } else {
        Ok(())
    }
}

/// The name of a project: the last component of its path, or `Unknown`
/// where the path has none.
pub open spec fn project_name(file_name: Option<Seq<char>>) -> Seq<char> {
    match file_name {
        Some(name) => name,
        None => "Unknown"@,
    }
}

/// The name and the kind of the project at a path, which has to exist.
pub open spec fn project_info(
    exists: bool,
    file_name: Option<Seq<char>>,
    files: Seq<Seq<char>>,
) -> Result<(Seq<char>, Option<Seq<char>>), Seq<char>> {
    if !exists {
        Err("Path does not exist"@)
    } else {
        Ok((project_name(file_name), detected_type(files)))
    }
}

/// Whether a file of this name holds settings of the environment: its
/// name starts with `.env`.
pub open spec fn is_env_name(name: Seq<char>) -> bool {
    ".env"@.is_prefix_of(name)
}

/// Whether `name` is among `files`.
fn has_file(files: &Vec<String>, name: &str) -> (found: bool)
    ensures
        found == texts(files@).contains(name@),
{
    let wanted = name.to_owned();
    let mut i: usize = 0;
    while i < files.len()
        invariant
            i <= files.len(),
            wanted@ == name@,
            forall|k: int| 0 <= k < i ==> texts(files@)[k] != name@,
        decreases files.len() - i,
    {
        if files[i] == wanted {
            assert(texts(files@)[i as int] == name@);
            return true;
        }
        i = i + 1;
    }
    false
}

impl ProjectManager {
    /// The names of the files that tell the kind of a project. These are
    /// the files to look for in a directory before
    /// [`ProjectManager::detect_project_type`] is asked.
    pub fn marker_files() -> (names: Vec<String>)
        ensures
            texts(names@) == marker_names(),
    {
        let mut names: Vec<String> = Vec::new();
        names.push("package.json".to_owned());
        names.push("Cargo.toml".to_owned());
        names.push("requirements.txt".to_owned());
        names.push("pyproject.toml".to_owned());
        names.push("pom.xml".to_owned());
        names.push("go.mod".to_owned());
        assert(texts(names@) == marker_names());
        names
    }

    /// Says whether a path can be the directory of a project, given
    /// whether it exists and whether it is a directory.
    pub fn validate_project_path(exists: bool, is_dir: bool) -> (result: Result<(), String>)
        ensures
            match result {
                Ok(()) => path_validation(exists, is_dir) == Ok::<(), Seq<char>>(()),
                Err(e) => path_validation(exists, is_dir) == Err::<(), Seq<char>>(e@),
            },
    {
        if !exists {
            Err("Path does not exist".to_owned())
        } else if !is_dir {
            Err("Path is not a directory".to_owned())
        } else {
            Ok(())
        }
    }

    /// The kind of project that a directory holds, given the names of the
    /// files in it.
    pub fn detect_project_type(files: &Vec<String>) -> (kind: Option<String>)
        ensures
            option_text(kind) == detected_type(texts(files@)),
    {
        if has_file(files, "package.json") {
            Some("Node.js".to_owned())
        } else if has_file(files, "Cargo.toml") {
            Some("Rust".to_owned())
        } else if has_file(files, "requirements.txt") || has_file(files, "pyproject.toml") {
            Some("Python".to_owned())
        } else if has_file(files, "pom.xml") {
            Some("Java/Maven".to_owned())
        } else if has_file(files, "go.mod") {
            Some("Go".to_owned())
        } else {
            None
        }
    }

    /// The name and the kind of the project at a path, given whether the
    /// path exists, its last component, and the names of the files in it.
    pub fn get_project_info(exists: bool, file_name: Option<String>, files: &Vec<String>) -> (result:
        Result<(String, Option<String>), String>)
        ensures
            match result {
                Ok((name, kind)) => project_info(exists, option_text(file_name), texts(files@))
                    == Ok::<(Seq<char>, Option<Seq<char>>), Seq<char>>((name@, option_text(kind))),
                Err(e) => project_info(exists, option_text(file_name), texts(files@)) == Err::<
                    (Seq<char>, Option<Seq<char>>),
                    Seq<char>,
                >(e@),
            },
    {
        if !exists {
            return Err("Path does not exist".to_owned());
        }
        let name = match file_name {
            Some(name) => name,
            None => "Unknown".to_owned(),
        };
        Ok((name, ProjectManager::detect_project_type(files)))
    }

    /// The repository that a project belongs to: see
    /// [`find_git_repo_path`].
    pub fn find_git_repository(candidates: &Vec<RepoCandidate>) -> (found: Option<String>)
        ensures
            option_text(found) == nearest_repository(candidates@),
    {
        find_git_repo_path(candidates)
    }

    /// Whether a file of this name holds settings of the environment.
    pub fn is_env_file(name: &str) -> (b: bool)
        ensures
            b == is_env_name(name@),
    {
        broadcast use vstd::string::group_string_axioms;

        proof {
            reveal_strlit(".env");
        }
        let mut seen: usize = 0;
        for c in it: name.chars()
            invariant
                it.seq() == name@,
                seen == it.index(),
                seen < 4,
                ".env"@.len() == 4,
                ".env"@[0] == '.',
                ".env"@[1] == 'e',
                ".env"@[2] == 'n',
                ".env"@[3] == 'v',
                forall|k: int| 0 <= k < seen ==> name@[k] == ".env"@[k],
        {
            let expected = if seen == 0 {
                '.'
            } else if seen == 1 {
                'e'
            } else if seen == 2 {
                'n'
            } else {
                'v'
            };
            assert(expected == ".env"@[seen as int]);
            if c != expected {
                assert(!is_env_name(name@)) by {
                    if ".env"@.is_prefix_of(name@) {
                        assert(name@.subrange(0, 4)[seen as int] == name@[seen as int]);
                    }
                }
                return false;
            }
            seen = seen + 1;
            if seen == 4 {
                assert(name@.subrange(0, 4) == ".env"@);
                return true;
            }
        }
        assert(name@.len() < 4);
        false
    }
}

} // verus!
