# trunk

The repository logic of Trunk, a desktop Git GUI, as a library verified
with Verus.

- `src/` is the library. Its functions carry `requires`/`ensures` contracts
  that Verus proves, except the trusted wrappers of `src/git.rs`, the JSON
  reading of `src/review.rs` and the few of `src/text.rs` and
  `src/review_doc.rs` that call std, whose contracts Verus takes on trust.
  It covers commit messages, the lane layout of the commit graph (HEAD's
  first-parent chain in column 0, stashes to the right), searching and
  paging the commit graph, stash, tag, undo and commit operations through git2, the
  git command lines Trunk runs and what their outcomes mean, in-progress
  merge and rebase descriptions, review-session files and their recovery
  rules, comment resolution against the object database, and the `PATH`
  that git subprocesses get. What git2 reports is handed, as plain values,
  to verified functions with exact contracts; the wrappers state only what
  git2's documentation and source promise.
- `tests/` runs the library against real repositories created with git2 in
  temporary directories.
- `app/` is the unverified layer around it: the commands, JSON values for the
  frontend, session files on disk, and the git processes.
