//! The git2 (libgit2) calls the library makes. Each function here is a
//! trusted wrapper of one git2 function: Verus believes its contract, which
//! states what git2's documentation and source promise, and nothing about
//! what the repository on disk holds.

use vstd::prelude::*;
use vstd::string::*;
use crate::operation::RepoState;

verus! {

#[verifier::external_type_specification]
#[verifier::external_body]
pub struct ExRepository(git2::Repository);

#[verifier::external_type_specification]
#[verifier::external_body]
pub struct ExGitError(git2::Error);

#[verifier::external_type_specification]
#[verifier::external_body]
pub struct ExOid(git2::Oid);

#[verifier::external_type_specification]
#[verifier::external_body]
pub struct ExCommit<'repo>(git2::Commit<'repo>);

#[verifier::external_type_specification]
#[verifier::external_body]
pub struct ExReference<'repo>(git2::Reference<'repo>);

#[verifier::external_type_specification]
#[verifier::external_body]
pub struct ExTree<'repo>(git2::Tree<'repo>);

#[verifier::external_type_specification]
#[verifier::external_body]
pub struct ExBlob<'repo>(git2::Blob<'repo>);

#[verifier::external_type_specification]
#[verifier::external_body]
pub struct ExTreeEntry<'tree>(git2::TreeEntry<'tree>);

#[verifier::external_type_specification]
#[verifier::external_body]
pub struct ExSignature<'a>(git2::Signature<'a>);

#[verifier::external_type_specification]
#[verifier::external_body]
pub struct ExIndex(git2::Index);

#[verifier::external_type_specification]
#[verifier::external_body]
pub struct ExObject<'repo>(git2::Object<'repo>);

#[verifier::external_type_specification]
#[verifier::external_body]
pub struct ExRevwalk<'repo>(git2::Revwalk<'repo>);

#[verifier::external_type_specification]
#[verifier::external_body]
pub struct ExTime(git2::Time);

#[verifier::external_type_specification]
#[verifier::external_body]
pub struct ExReflog(git2::Reflog);

/// `git2::Repository::open`: opens the repository at a directory. Whether it
/// succeeds depends on the disk, so nothing is stated.
#[verifier::external_body]
pub(crate) fn repo_open(dir: &str) -> (r: Result<git2::Repository, git2::Error>) {
    git2::Repository::open(dir)
}

/// `git2::Error::message`: the error's text.
#[verifier::external_body]
pub(crate) fn error_message(e: &git2::Error) -> (m: String) {
    e.message().to_owned()
}

/// `git2::Error`'s `Display`: its message, then its class and code when
/// they are not the generic ones.
#[verifier::external_body]
pub(crate) fn error_display(e: &git2::Error) -> (m: String) {
    e.to_string()
}

/// `git2::Error::code`, compared with `ErrorCode::UnbornBranch`: whether the
/// error reports a HEAD that points at a branch with no commit yet.
#[verifier::external_body]
pub(crate) fn error_is_unborn_branch(e: &git2::Error) -> (b: bool) {
    e.code() == git2::ErrorCode::UnbornBranch
}

/// `git2::Error::code`, compared with `ErrorCode::NotFound`: whether the
/// error reports that what was looked up does not exist.
#[verifier::external_body]
pub(crate) fn error_is_not_found(e: &git2::Error) -> (b: bool) {
    e.code() == git2::ErrorCode::NotFound
}

/// `git2::Repository::head`: the reference HEAD points at.
#[verifier::external_body]
pub(crate) fn repo_head<'r>(repo: &'r git2::Repository) -> (r: Result<git2::Reference<'r>, git2::Error>) {
    repo.head()
}

/// `git2::Reference::peel_to_commit`.
#[verifier::external_body]
pub(crate) fn reference_peel_to_commit<'r>(reference: &git2::Reference<'r>) -> (r: Result<
    git2::Commit<'r>,
    git2::Error,
>) {
    reference.peel_to_commit()
}

/// `git2::Reference::shorthand`, as an owned string; `None` when git2
/// reports the name as not UTF-8.
#[verifier::external_body]
pub(crate) fn reference_shorthand(reference: &git2::Reference) -> (r: Option<String>) {
    reference.shorthand().ok().map(|s| s.to_owned())
}

/// `git2::Commit::summary`, as an owned string; `None` when there is no
/// summary or it is not UTF-8.
#[verifier::external_body]
pub(crate) fn commit_summary(commit: &git2::Commit) -> (r: Option<String>) {
    commit.summary().ok().flatten().map(|s| s.to_owned())
}

/// `git2::Commit::body`, as an owned string; `None` when there is no body
/// or it is not UTF-8.
#[verifier::external_body]
pub(crate) fn commit_body(commit: &git2::Commit) -> (r: Option<String>) {
    commit.body().ok().flatten().map(|s| s.to_owned())
}

/// `git2::Commit::parent_count`.
#[verifier::external_body]
pub(crate) fn commit_parent_count(commit: &git2::Commit) -> (n: usize) {
    commit.parent_count()
}

/// `git2::Repository::signature`: the configured `user.name` and
/// `user.email`.
#[verifier::external_body]
pub(crate) fn repo_signature(repo: &git2::Repository) -> (r: Result<git2::Signature<'static>, git2::Error>) {
    repo.signature()
}

/// `git2::Repository::index`: the repository's index.
#[verifier::external_body]
pub(crate) fn repo_index(repo: &git2::Repository) -> (r: Result<git2::Index, git2::Error>) {
    repo.index()
}

/// `git2::Index::write_tree`: writes the index as a tree object.
#[verifier::external_body]
pub(crate) fn index_write_tree(index: &mut git2::Index) -> (r: Result<git2::Oid, git2::Error>) {
    index.write_tree()
}

/// `git2::Repository::find_tree`.
#[verifier::external_body]
pub(crate) fn repo_find_tree<'r>(repo: &'r git2::Repository, oid: git2::Oid) -> (r: Result<
    git2::Tree<'r>,
    git2::Error,
>) {
    repo.find_tree(oid)
}

/// `git2::Repository::commit` with `HEAD` as the reference to update, the
/// same signature as author and committer, and the given parent if any.
#[verifier::external_body]
pub(crate) fn repo_commit_on_head(
    repo: &git2::Repository,
    sig: &git2::Signature,
    message: &str,
    tree: &git2::Tree,
    parent: Option<&git2::Commit>,
) -> (r: Result<git2::Oid, git2::Error>) {
    let parents: Vec<&git2::Commit> = parent.into_iter().collect();
    repo.commit(Some("HEAD"), sig, sig, message, tree, &parents)
}

/// `git2::Commit::amend` with `HEAD` as the reference to update, the same
/// signature as author and committer, the given message and tree, and the
/// default encoding.
#[verifier::external_body]
pub(crate) fn commit_amend_head(
    commit: &git2::Commit,
    sig: &git2::Signature,
    message: &str,
    tree: &git2::Tree,
) -> (r: Result<git2::Oid, git2::Error>) {
    commit.amend(Some("HEAD"), Some(sig), Some(sig), None, Some(message), Some(tree))
}

/// `git2::Repository::find_commit`.
#[verifier::external_body]
pub(crate) fn repo_find_commit<'r>(repo: &'r git2::Repository, oid: git2::Oid) -> (r: Result<
    git2::Commit<'r>,
    git2::Error,
>) {
    repo.find_commit(oid)
}

/// `git2::Commit::parent_id`.
#[verifier::external_body]
pub(crate) fn commit_parent_id(commit: &git2::Commit, i: usize) -> (r: Result<git2::Oid, git2::Error>) {
    commit.parent_id(i)
}

/// `git2::Commit::tree`.
#[verifier::external_body]
pub(crate) fn commit_tree<'r>(commit: &git2::Commit<'r>) -> (r: Result<git2::Tree<'r>, git2::Error>) {
    commit.tree()
}

/// `git2::Commit::id`.
#[verifier::external_body]
pub(crate) fn commit_id(commit: &git2::Commit) -> (r: git2::Oid) {
    commit.id()
}

/// `git2::Commit::author`.
#[verifier::external_body]
pub(crate) fn commit_author<'c>(commit: &'c git2::Commit) -> (r: git2::Signature<'c>) {
    commit.author()
}

/// `git2::Commit::time`.
#[verifier::external_body]
pub(crate) fn commit_time(commit: &git2::Commit) -> (r: git2::Time) {
    commit.time()
}

/// `git2::Time::seconds`: seconds since the epoch.
#[verifier::external_body]
pub(crate) fn time_seconds(t: &git2::Time) -> (s: i64) {
    t.seconds()
}

/// `git2::Signature::name`, as an owned string; `None` when it is not UTF-8.
#[verifier::external_body]
pub(crate) fn signature_name(sig: &git2::Signature) -> (r: Option<String>) {
    sig.name().ok().map(|s| s.to_owned())
}

/// `git2::Oid`'s `Display` (`git_oid_fmt`): the forty lowercase hex digits
/// of the id.
#[verifier::external_body]
pub(crate) fn oid_to_string(oid: &git2::Oid) -> (s: String)
    ensures
        s@.len() == 40,
        forall|k: int| 0 <= k < 40 ==> is_lower_hex_char(#[trigger] s@[k]),
{
    oid.to_string()
}

/// An ASCII hex digit.
pub open spec fn is_hex_char(c: char) -> bool {
    ('0' <= c && c <= '9') || ('a' <= c && c <= 'f') || ('A' <= c && c <= 'F')
}

/// A lowercase ASCII hex digit.
pub open spec fn is_lower_hex_char(c: char) -> bool {
    ('0' <= c && c <= '9') || ('a' <= c && c <= 'f')
}

/// A hex digit in lowercase.
pub open spec fn hex_lower(c: char) -> char {
    if c == 'A' {
        'a'
    } else if c == 'B' {
        'b'
    } else if c == 'C' {
        'c'
    } else if c == 'D' {
        'd'
    } else if c == 'E' {
        'e'
    } else if c == 'F' {
        'f'
    } else {
        c
    }
}

/// The full text of the id that one to forty hex digits name, as
/// `git2::Oid::from_str` reads them (`git_oid_fromstrn` fills the digits in
/// and leaves the rest zero) and `Display` writes it back: the digits in
/// lowercase, padded with `0` to forty.
pub open spec fn canonical_oid_text(s: Seq<char>) -> Seq<char> {
    s.map_values(|c: char| hex_lower(c)) + Seq::new((40 - s.len()) as nat, |i: int| '0')
}

/// The strings `git2::Oid::from_str` accepts: one to forty hex digits.
pub open spec fn is_oid_text(s: Seq<char>) -> bool {
    1 <= s.len() <= 40 && forall|k: int| 0 <= k < s.len() ==> is_hex_char(s[k])
}

/// `git2::Oid::from_str`. By its source (`git_oid_fromstrn`), it fails when
/// the string is empty, longer than forty bytes, or holds a byte that is not
/// an ASCII hex digit, and succeeds otherwise.
#[verifier::external_body]
pub(crate) fn oid_from_str(s: &str) -> (r: Result<git2::Oid, git2::Error>)
    ensures
        r is Ok <==> is_oid_text(s@),
{
    git2::Oid::from_str(s)
}

/// `git2::Repository::stash_save` without flags.
#[verifier::external_body]
pub(crate) fn repo_stash_save(repo: &mut git2::Repository, sig: &git2::Signature, message: &str) -> (r:
    Result<git2::Oid, git2::Error>) {
    repo.stash_save(sig, message, None)
}

/// `git2::Repository::stash_drop`.
#[verifier::external_body]
pub(crate) fn repo_stash_drop(repo: &mut git2::Repository, index: usize) -> (r: Result<(), git2::Error>) {
    repo.stash_drop(index)
}

/// `git2::Repository::stash_pop` with default options.
#[verifier::external_body]
pub(crate) fn repo_stash_pop(repo: &mut git2::Repository, index: usize) -> (r: Result<(), git2::Error>) {
    repo.stash_pop(index, None)
}

/// `git2::Repository::stash_apply` with default options.
#[verifier::external_body]
pub(crate) fn repo_stash_apply(repo: &mut git2::Repository, index: usize) -> (r: Result<(), git2::Error>) {
    repo.stash_apply(index, None)
}

/// `git2::Repository::reflog`: the log of a reference, empty when the
/// reference has no log file.
#[verifier::external_body]
pub(crate) fn repo_reflog(repo: &git2::Repository, name: &str) -> (r: Result<git2::Reflog, git2::Error>) {
    repo.reflog(name)
}

/// `git2::Reflog::iter`, collected newest first: each entry's message as
/// bytes decoded as UTF-8 with invalid sequences replaced (`None` when the
/// entry has no message), and the entry's new id.
#[verifier::external_body]
pub(crate) fn reflog_entries(log: &git2::Reflog) -> (r: Vec<(Option<String>, git2::Oid)>) {
    log.iter().map(|e| (e.message_bytes().map(|b| String::from_utf8_lossy(b).into_owned()), e.id_new())).collect()
}

/// `git2::Repository::statuses` with default options: the status bits of
/// each entry.
#[verifier::external_body]
pub(crate) fn repo_status_bits(repo: &git2::Repository) -> (r: Result<Vec<u32>, git2::Error>) {
    let statuses = repo.statuses(None)?;
    Ok(statuses.iter().map(|s| s.status().bits()).collect())
}

/// `git2::Repository::statuses` with untracked and ignored files left out:
/// the status bits of each entry.
#[verifier::external_body]
pub(crate) fn repo_tracked_status_bits(repo: &git2::Repository) -> (r: Result<Vec<u32>, git2::Error>) {
    let mut opts = git2::StatusOptions::new();
    opts.include_untracked(false).include_ignored(false);
    let statuses = repo.statuses(Some(&mut opts))?;
    Ok(statuses.iter().map(|s| s.status().bits()).collect())
}

/// `git2::Repository::revparse_single`.
#[verifier::external_body]
pub(crate) fn repo_revparse_single<'r>(repo: &'r git2::Repository, spec: &str) -> (r: Result<
    git2::Object<'r>,
    git2::Error,
>) {
    repo.revparse_single(spec)
}

/// `git2::Object::id`.
#[verifier::external_body]
pub(crate) fn object_id(obj: &git2::Object) -> (r: git2::Oid) {
    obj.id()
}

/// `git2::Repository::checkout_tree` with a safe checkout (files with local
/// changes are not overwritten).
#[verifier::external_body]
pub(crate) fn repo_checkout_tree_safe(repo: &git2::Repository, obj: &git2::Object) -> (r: Result<
    (),
    git2::Error,
>) {
    repo.checkout_tree(obj, Some(git2::build::CheckoutBuilder::new().safe()))
}

/// `git2::Repository::set_head_detached`.
#[verifier::external_body]
pub(crate) fn repo_set_head_detached(repo: &git2::Repository, oid: git2::Oid) -> (r: Result<
    (),
    git2::Error,
>) {
    repo.set_head_detached(oid)
}

/// `git2::Repository::tag` without overwriting an existing tag.
#[verifier::external_body]
pub(crate) fn repo_tag(
    repo: &git2::Repository,
    name: &str,
    target: &git2::Object,
    sig: &git2::Signature,
    message: &str,
) -> (r: Result<git2::Oid, git2::Error>) {
    repo.tag(name, target, sig, message, false)
}

/// `git2::Repository::find_reference`.
#[verifier::external_body]
pub(crate) fn repo_find_reference<'r>(repo: &'r git2::Repository, name: &str) -> (r: Result<
    git2::Reference<'r>,
    git2::Error,
>) {
    repo.find_reference(name)
}

/// `git2::Reference::delete`.
#[verifier::external_body]
pub(crate) fn reference_delete(reference: &mut git2::Reference) -> (r: Result<(), git2::Error>) {
    reference.delete()
}

/// `git2::Reference::name`, as an owned string; `None` when it is not UTF-8.
#[verifier::external_body]
pub(crate) fn reference_name(reference: &git2::Reference) -> (r: Option<String>) {
    reference.name().ok().map(|s| s.to_owned())
}

/// `git2::Reference::target`: the oid a direct reference points at.
#[verifier::external_body]
pub(crate) fn reference_target(reference: &git2::Reference) -> (r: Option<git2::Oid>) {
    reference.target()
}

/// `git2::Reference::is_branch`: whether it is under `refs/heads/`.
#[verifier::external_body]
pub(crate) fn reference_is_branch(reference: &git2::Reference) -> (b: bool) {
    reference.is_branch()
}

/// `git2::Reference::is_remote`: whether it is under `refs/remotes/`.
#[verifier::external_body]
pub(crate) fn reference_is_remote(reference: &git2::Reference) -> (b: bool) {
    reference.is_remote()
}

/// `git2::Reference::is_tag`: whether it is under `refs/tags/`.
#[verifier::external_body]
pub(crate) fn reference_is_tag(reference: &git2::Reference) -> (b: bool) {
    reference.is_tag()
}

/// `git2::Reference::resolve`: follows symbolic references to a direct one.
#[verifier::external_body]
pub(crate) fn reference_resolve<'r>(reference: &git2::Reference<'r>) -> (r: Result<
    git2::Reference<'r>,
    git2::Error,
>) {
    reference.resolve()
}

/// `git2::Repository::references`, collected: every item the iterator
/// yields, in its order.
#[verifier::external_body]
pub(crate) fn repo_references<'r>(repo: &'r git2::Repository) -> (r: Result<
    Vec<Result<git2::Reference<'r>, git2::Error>>,
    git2::Error,
>) {
    Ok(repo.references()?.collect())
}

/// `git2::Repository::revwalk`.
#[verifier::external_body]
pub(crate) fn repo_revwalk<'r>(repo: &'r git2::Repository) -> (r: Result<git2::Revwalk<'r>, git2::Error>) {
    repo.revwalk()
}

/// `git2::Revwalk::set_sorting` with topological and time order.
#[verifier::external_body]
pub(crate) fn revwalk_sort_topological_time(walk: &mut git2::Revwalk) -> (r: Result<(), git2::Error>) {
    walk.set_sorting(git2::Sort::TOPOLOGICAL | git2::Sort::TIME)
}

/// `git2::Revwalk::push_range`: walks the commits reachable from the range's
/// end and not from its start (`start..end`).
#[verifier::external_body]
pub(crate) fn revwalk_push_range(walk: &mut git2::Revwalk, range: &str) -> (r: Result<(), git2::Error>) {
    walk.push_range(range)
}

/// `git2::Revwalk::push_glob`: also walks the commits reachable from the
/// references that match the glob (those that point at no commit are
/// skipped).
#[verifier::external_body]
pub(crate) fn revwalk_push_glob(walk: &mut git2::Revwalk, glob: &str) -> (r: Result<(), git2::Error>) {
    walk.push_glob(glob)
}

/// `git2::Revwalk::push_head`: walks the commits reachable from HEAD.
#[verifier::external_body]
pub(crate) fn revwalk_push_head(walk: &mut git2::Revwalk) -> (r: Result<(), git2::Error>) {
    walk.push_head()
}

/// `git2::Commit::parent_ids`, collected in order.
#[verifier::external_body]
pub(crate) fn commit_parent_ids(commit: &git2::Commit) -> (r: Vec<git2::Oid>) {
    commit.parent_ids().collect()
}

/// `git2::Signature::email`, as an owned string; `None` when it is not UTF-8.
#[verifier::external_body]
pub(crate) fn signature_email(sig: &git2::Signature) -> (r: Option<String>) {
    sig.email().ok().map(|s| s.to_owned())
}

/// The `git2::Revwalk` iterator, collected: every item it yields, in order.
#[verifier::external_body]
pub(crate) fn revwalk_collect(walk: git2::Revwalk) -> (r: Vec<Result<git2::Oid, git2::Error>>) {
    walk.collect()
}

/// `git2::Repository::state`, told apart variant by variant.
#[verifier::external_body]
pub(crate) fn repo_state(repo: &git2::Repository) -> (s: RepoState) {
    match repo.state() {
        git2::RepositoryState::Clean => RepoState::Clean,
        git2::RepositoryState::Merge => RepoState::Merge,
        git2::RepositoryState::Revert => RepoState::Revert,
        git2::RepositoryState::RevertSequence => RepoState::RevertSequence,
        git2::RepositoryState::CherryPick => RepoState::CherryPick,
        git2::RepositoryState::CherryPickSequence => RepoState::CherryPickSequence,
        git2::RepositoryState::Bisect => RepoState::Bisect,
        git2::RepositoryState::Rebase => RepoState::Rebase,
        git2::RepositoryState::RebaseInteractive => RepoState::RebaseInteractive,
        git2::RepositoryState::RebaseMerge => RepoState::RebaseMerge,
        git2::RepositoryState::ApplyMailbox => RepoState::ApplyMailbox,
        git2::RepositoryState::ApplyMailboxOrRebase => RepoState::ApplyMailboxOrRebase,
    }
}

/// `git2::Tree::get_path` for a `/`-separated path.
#[verifier::external_body]
pub(crate) fn tree_get_path(tree: &git2::Tree, path: &str) -> (r: Result<git2::TreeEntry<'static>, git2::Error>) {
    tree.get_path(std::path::Path::new(path))
}

/// `git2::TreeEntry::id`.
#[verifier::external_body]
pub(crate) fn tree_entry_id(entry: &git2::TreeEntry) -> (r: git2::Oid) {
    entry.id()
}

/// `git2::Repository::find_blob`.
#[verifier::external_body]
pub(crate) fn repo_find_blob<'r>(repo: &'r git2::Repository, oid: git2::Oid) -> (r: Result<
    git2::Blob<'r>,
    git2::Error,
>) {
    repo.find_blob(oid)
}

/// `git2::Blob::content`, copied: the blob's bytes.
#[verifier::external_body]
pub(crate) fn blob_content(blob: &git2::Blob) -> (r: Vec<u8>) {
    blob.content().to_vec()
}

/// `git2::Index::new`: an empty in-memory index.
#[verifier::external_body]
pub(crate) fn index_new() -> (r: Result<git2::Index, git2::Error>) {
    git2::Index::new()
}

/// `git2::Repository::set_index`: makes `index` the repository's in-memory
/// index; nothing is written to `.git/index`.
#[verifier::external_body]
pub(crate) fn repo_set_index(repo: &git2::Repository, index: &mut git2::Index) -> (r: Result<
    (),
    git2::Error,
>) {
    repo.set_index(index)
}

/// `git2::Index::add_all` with the pathspec `*` and the default options,
/// which respect `.gitignore`.
#[verifier::external_body]
pub(crate) fn index_add_everything(index: &mut git2::Index) -> (r: Result<(), git2::Error>) {
    index.add_all(["*"].iter(), git2::IndexAddOption::DEFAULT, None)
}

/// `git2::Index::write_tree_to`: writes the index's tree objects into the
/// repository's object database.
#[verifier::external_body]
pub(crate) fn index_write_tree_to(index: &mut git2::Index, repo: &git2::Repository) -> (r: Result<
    git2::Oid,
    git2::Error,
>) {
    index.write_tree_to(repo)
}

/// `git2::Signature::now`: a signature stamped with the current time.
#[verifier::external_body]
pub(crate) fn signature_now(name: &str, email: &str) -> (r: Result<git2::Signature<'static>, git2::Error>) {
    git2::Signature::now(name, email)
}

/// `git2::Signature::when`.
#[verifier::external_body]
pub(crate) fn signature_when(sig: &git2::Signature) -> (r: git2::Time) {
    sig.when()
}

/// `git2::Repository::commit` that updates no reference (a dangling
/// commit), with the same signature as author and committer and the given
/// parent if any.
#[verifier::external_body]
pub(crate) fn repo_commit_dangling(
    repo: &git2::Repository,
    sig: &git2::Signature,
    message: &str,
    tree: &git2::Tree,
    parent: Option<&git2::Commit>,
) -> (r: Result<git2::Oid, git2::Error>) {
    let parents: Vec<&git2::Commit> = parent.into_iter().collect();
    repo.commit(None, sig, sig, message, tree, &parents)
}

/// Whether `s` is one to forty hex digits (see `is_oid_text`).
pub fn is_oid_str(s: &str) -> (b: bool)
    ensures
        b == is_oid_text(s@),
{
    let v = crate::text::chars_of(s);
    if v.len() == 0 || v.len() > 40 {
        return false;
    }
    let mut i: usize = 0;
    while i < v.len()
        invariant
            i <= v@.len(),
            v@ == s@,
            forall|k: int| 0 <= k < i ==> is_hex_char(#[trigger] v@[k]),
        decreases v.len() - i,
    {
        let c = v[i];
        if !(('0' <= c && c <= '9') || ('a' <= c && c <= 'f') || ('A' <= c && c <= 'F')) {
            return false;
        }
        i += 1;
    }
    true
}

/// The full forty-digit text of the id that `s` names (see
/// `canonical_oid_text`).
pub fn oid_text_of(s: &str) -> (r: String)
    requires
        is_oid_text(s@),
    ensures
        r@ == canonical_oid_text(s@),
{
    let v = crate::text::chars_of(s);
    let mut r = String::new();
    let mut i: usize = 0;
    while i < v.len()
        invariant
            i <= v@.len(),
            v@ == s@,
            r@ == s@.subrange(0, i as int).map_values(|c: char| hex_lower(c)),
        decreases v.len() - i,
    {
        let c = v[i];
        let l = if c == 'A' {
            'a'
        } else if c == 'B' {
            'b'
        } else if c == 'C' {
            'c'
        } else if c == 'D' {
            'd'
        } else if c == 'E' {
            'e'
        } else if c == 'F' {
            'f'
        } else {
            c
        };
        crate::text::push_char(&mut r, l);
        proof {
            assert(s@.subrange(0, i + 1).map_values(|c: char| hex_lower(c)) =~= s@.subrange(0, i as int).map_values(
                |c: char| hex_lower(c),
            ).push(hex_lower(s@[i as int])));
        }
        i += 1;
    }
    assert(s@.subrange(0, s@.len() as int) == s@);
    let ghost digits = r@;
    let mut j: usize = v.len();
    while j < 40
        invariant
            v@.len() <= j <= 40,
            v@ == s@,
            r@ == digits + Seq::new((j - v@.len()) as nat, |k: int| '0'),
        decreases 40 - j,
    {
        crate::text::push_char(&mut r, '0');
        proof {
            assert(Seq::new((j + 1 - v@.len()) as nat, |k: int| '0') =~= Seq::new((j - v@.len()) as nat, |k: int| '0').push('0'));
        }
        j += 1;
    }
    r
}

/// The stashes of a repository, newest first, as `git stash list` and
/// `git2::Repository::stash_foreach` report them: each stash's position,
/// message and commit are the position, message and new id of an entry of
/// the `refs/stash` reflog. No `refs/stash` means no stash. The messages are
/// read as bytes, so a message that is not UTF-8 is kept (with its invalid
/// sequences replaced) rather than ending the listing; an entry without a
/// message reads as the empty message.
pub(crate) fn read_stashes(repo: &git2::Repository) -> (r: Result<Vec<(usize, String, git2::Oid)>, git2::Error>)
    ensures
        r matches Ok(v) ==> forall|k: int| 0 <= k < v@.len() ==> (#[trigger] v@[k]).0 == k,
{
    match repo_find_reference(repo, "refs/stash") {
        Ok(_) => {},
        Err(e) => {
            if error_is_not_found(&e) {
                return Ok(Vec::new());
            }
            return Err(e);
        },
    }
    let log = repo_reflog(repo, "refs/stash")?;
    let entries = reflog_entries(&log);
    let mut out: Vec<(usize, String, git2::Oid)> = Vec::new();
    let mut i: usize = 0;
    while i < entries.len()
        invariant
            i <= entries@.len(),
            out@.len() == i,
            forall|k: int| 0 <= k < out@.len() ==> (#[trigger] out@[k]).0 == k,
        decreases entries.len() - i,
    {
        let (message, oid) = &entries[i];
        let text = match message {
            Some(m) => m.clone(),
            None => String::new(),
        };
        out.push((i, text, *oid));
        i += 1;
    }
    Ok(out)
}

} // verus!
