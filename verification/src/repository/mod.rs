//! What comes before the engine: a repository's files, an index of nodes by
//! type, and what lexical patterns find in source code.

pub mod code_analyzer;
pub mod indexer;
pub mod model_loader;

pub use code_analyzer::CodeAnalyzer;
pub use indexer::Indexer;

use vstd::prelude::*;

verus! {

/// Why a repository could not be opened.
#[derive(Debug, Clone)]
pub enum RepositoryError {
    /// Nothing exists at the root path.
    MissingRoot { root_path: String },
}

/// One step of a walk through a directory tree: the path of what was met, if
/// it can be written as text, and whether it is a file.
#[derive(Debug, Clone)]
pub struct WalkedEntry {
    pub path: Option<String>,
    pub is_file: bool,
}

/// The step yields a file path: it went well, it met a file, and the file's
/// path is text.
pub open spec fn yields_file(step: Option<WalkedEntry>) -> bool {
    step matches Some(entry) && entry.is_file && entry.path is Some
}

/// The file paths that a walk yields, in the order of the walk.
pub open spec fn files_of(walk: Seq<Option<WalkedEntry>>) -> Seq<Seq<char>>
    decreases walk.len(),
{
    if walk.len() == 0 {
        Seq::empty()
    } else if yields_file(walk.last()) {
        files_of(walk.drop_last()).push(walk.last().unwrap().path.unwrap()@)
    } else {
        files_of(walk.drop_last())
    }
}

/// A repository on disk, known by its root path.
pub struct CodeRepository {
    root_path: String,
}

impl CodeRepository {
    /// The root path.
    pub closed spec fn root(&self) -> Seq<char> {
        self.root_path@
    }

    /// The repository at `root_path`, which the caller has looked for: where
    /// nothing exists there, there is no repository.
    pub fn new(root_path: String, root_exists: bool) -> (opened: Result<
        CodeRepository,
        RepositoryError,
    >)
        ensures
            root_exists ==> opened is Ok && opened.unwrap().root() == root_path@,
            !root_exists ==> opened == Err::<CodeRepository, RepositoryError>(
                RepositoryError::MissingRoot { root_path },
            ),
    {
        if !root_exists {
            return Err(RepositoryError::MissingRoot { root_path });
        }
        Ok(CodeRepository { root_path })
    }

    /// The paths of the files that a walk below the root has met. Steps that
    /// failed, steps that met something other than a file and files whose path
    /// is not text are passed over.
    pub fn scan_files(&self, walk: Vec<Option<WalkedEntry>>) -> (files: Vec<String>)
        ensures
            files.deep_view() == files_of(walk@),
    {
        let mut files: Vec<String> = Vec::new();
        let mut i: usize = 0;
        while i < walk.len()
            invariant
                i <= walk.len(),
                files.deep_view() == files_of(walk@.take(i as int)),
            decreases walk.len() - i,
        {
            proof {
                assert(walk@.take(i + 1).drop_last() == walk@.take(i as int));
                assert(walk@.take(i + 1).last() == walk@[i as int]);
            }
            match &walk[i] {
                Some(entry) => {
                    if entry.is_file {
                        match &entry.path {
                            Some(path) => {
                                let ghost found = files.deep_view();
                                files.push(path.clone());
                                proof {
                                    assert(files.deep_view() =~= found.push(path@));
                                }
                            },
                            None => {},
                        }
                    }
                },
                None => {},
            }
            i += 1;
        }
        proof {
            assert(walk@.take(walk.len() as int) == walk@);
        }
        files
    }

    pub fn get_root_path(&self) -> (root_path: &String)
        ensures
            root_path@ == self.root(),
    {
        &self.root_path
    }
}

} // verus!
