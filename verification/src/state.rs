//! The application's per-repository state: which paths are open (and where
//! their repositories live), and which remote operation, by process id, runs
//! for each; closing and force-closing a repository.

use vstd::prelude::*;
use vstd::string::*;
use vstd::hash_map::StringHashMap;
use crate::error::TrunkError;
use crate::history::{not_open_error, not_open_message, CommitCache, GraphResult};

verus! {

/// The open repositories: the path the frontend knows each by, and the
/// directory it was opened from.
pub struct RepoRegistry {
    pub dirs: StringHashMap<String>,
}

impl RepoRegistry {
    /// No repository open.
    pub fn new() -> (r: RepoRegistry)
        ensures
            r.dirs@ == Map::<Seq<char>, String>::empty(),
    {
        RepoRegistry { dirs: StringHashMap::new() }
    }

    /// Records `path` as open from `dir`.
    pub fn insert(&mut self, path: String, dir: String)
        ensures
            final(self).dirs@ == old(self).dirs@.insert(path@, dir),
    {
        self.dirs.insert(path, dir);
    }

    /// Forgets `path`.
    pub fn remove(&mut self, path: &str)
        ensures
            final(self).dirs@ == old(self).dirs@.remove(path@),
    {
        self.dirs.remove(path);
    }

    /// Whether `path` is open.
    pub fn contains(&self, path: &str) -> (b: bool)
        ensures
            b == self.dirs@.contains_key(path@),
    {
        self.dirs.contains_key(path)
    }

    /// The directory `path` was opened from, or the `not_open` error.
    pub fn dir_of(&self, path: &str) -> (r: Result<String, TrunkError>)
        ensures
            r is Ok <==> self.dirs@.contains_key(path@),
            r matches Ok(d) ==> d == self.dirs@[path@],
            r matches Err(e) ==> e.code@ == "not_open"@ && e.message@ == not_open_message(path@),
    {
        match self.dirs.get(path) {
            Some(d) => Ok(d.clone()),
            None => Err(not_open_error(path)),
        }
    }
}

/// The remote operation running for each repository, by process id. At most
/// one runs per repository; different repositories run independently.
pub struct RunningOps {
    pub pids: StringHashMap<u32>,
}

impl RunningOps {
    /// Nothing running.
    pub fn new() -> (r: RunningOps)
        ensures
            r.pids@ == Map::<Seq<char>, u32>::empty(),
    {
        RunningOps { pids: StringHashMap::new() }
    }

    /// Records the process running for `path`.
    pub fn insert(&mut self, path: String, pid: u32)
        ensures
            final(self).pids@ == old(self).pids@.insert(path@, pid),
    {
        self.pids.insert(path, pid);
    }

    /// Whether an operation runs for `path`.
    pub fn contains(&self, path: &str) -> (b: bool)
        ensures
            b == self.pids@.contains_key(path@),
    {
        self.pids.contains_key(path)
    }

    /// The process running for `path`, if any.
    pub fn get(&self, path: &str) -> (r: Option<u32>)
        ensures
            r == (if self.pids@.contains_key(path@) {
                Some(self.pids@[path@])
            } else {
                None::<u32>
            }),
    {
        match self.pids.get(path) {
            Some(p) => Some(*p),
            None => None,
        }
    }

    /// How many repositories have an operation running.
    pub fn len(&self) -> (n: usize)
        ensures
            n == self.pids@.len(),
    {
        self.pids.len()
    }

    /// Removes the entry of `path`, returning the process id it held.
    pub fn remove(&mut self, path: &str) -> (r: Option<u32>)
        ensures
            final(self).pids@ == old(self).pids@.remove(path@),
            r == (if old(self).pids@.contains_key(path@) {
                Some(old(self).pids@[path@])
            } else {
                None::<u32>
            }),
    {
        let r = self.get(path);
        self.pids.remove(path);
        r
    }
}

/// Records `path` as open from `dir` with its walked graph.
pub fn open_repo_state(
    path: &str,
    dir: String,
    graph: GraphResult,
    registry: &mut RepoRegistry,
    cache: &mut CommitCache,
)
    ensures
        final(registry).dirs@ == old(registry).dirs@.insert(path@, dir),
        final(cache).graphs@ == old(cache).graphs@.insert(path@, graph),
{
    registry.insert(path.to_owned(), dir);
    cache.insert(path.to_owned(), graph);
}

/// Closes `path`: it is no longer open and its graph is dropped. A remote
/// operation running for it is left alone.
pub fn close_repo(path: &str, registry: &mut RepoRegistry, cache: &mut CommitCache)
    ensures
        final(registry).dirs@ == old(registry).dirs@.remove(path@),
        final(cache).graphs@ == old(cache).graphs@.remove(path@),
{
    registry.remove(path);
    cache.graphs.remove(path);
}

/// Closes `path` after cancelling the remote operation running for it: the
/// process id to kill, if there was one, is returned and its entry removed;
/// other repositories' operations are kept.
pub fn force_close_repo(
    path: &str,
    registry: &mut RepoRegistry,
    cache: &mut CommitCache,
    running: &mut RunningOps,
) -> (pid: Option<u32>)
    ensures
        pid == (if old(running).pids@.contains_key(path@) {
            Some(old(running).pids@[path@])
        } else {
            None::<u32>
        }),
        final(running).pids@ == old(running).pids@.remove(path@),
        final(registry).dirs@ == old(registry).dirs@.remove(path@),
        final(cache).graphs@ == old(cache).graphs@.remove(path@),
{
    let pid = running.remove(path);
    close_repo(path, registry, cache);
    pid
}

} // verus!
