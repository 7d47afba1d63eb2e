//! Review sessions: what a session holds, its three-state status, and the
//! decisions of starting, resuming and loading a session.

use vstd::prelude::*;
use vstd::string::*;
use crate::error::TrunkError;
use crate::repo_ops::lookup_outcome;
use crate::state::RepoRegistry;
use vstd::hash_map::StringHashMap;

verus! {

/// Which side of a diff an anchor's line numbers index into.
#[derive(PartialEq, Eq, Structural, Clone, Copy, Debug)]
pub enum Side {
    Old,
    New,
}

/// Where a line-anchored comment was captured.
#[derive(PartialEq, Eq, Structural, Clone, Copy, Debug)]
pub enum Source {
    Diff,
    FullFile,
}

/// The lines of a file in a commit that a comment is attached to
/// (1-based, inclusive).
#[derive(Debug)]
pub struct Anchor {
    pub commit_oid: String,
    pub file_path: String,
    pub source: Source,
    pub side: Side,
    pub start_line: u32,
    pub end_line: u32,
}

/// A review comment: line-anchored when `anchor` is set, commit-level when
/// only `commit_oid` is.
#[derive(Debug)]
pub struct Comment {
    pub id: String,
    pub text: String,
    pub anchor: Option<Anchor>,
    pub cached_excerpt: Option<String>,
    pub commit_oid: Option<String>,
}

/// A review session as it is stored per repository.
#[derive(Debug)]
pub struct ReviewSession {
    pub schema_version: u32,
    pub commits: Vec<String>,
    pub comments: Vec<Comment>,
    pub draft_comment: Option<String>,
}

/// The three review-session states the frontend renders.
#[derive(PartialEq, Eq, Structural, Clone, Copy, Debug)]
pub enum SessionState {
    /// A session file exists and the session is loaded in memory.
    Active,
    /// A session file exists but nothing is loaded: it can be resumed.
    ResumeAvailable,
    /// There is no session file.
    NoSession,
}

/// The status reported for a repository's review session.
#[derive(Debug)]
pub struct SessionStatus {
    pub state: SessionState,
    pub file_exists: bool,
    pub canonical_path: String,
}

/// What loading a session file gave.
#[derive(Debug)]
pub enum LoadOutcome {
    /// A valid session of this schema version or an older one.
    Loaded(ReviewSession),
    /// No session file exists for the repository.
    Missing,
    /// The file could not be read as a session and was moved aside.
    RecoveredCorrupt,
    /// The file has a newer schema version and was left untouched.
    RefusedNewer,
}

/// A fresh session: current schema, nothing selected, no comments.
pub open spec fn is_fresh_session(s: ReviewSession) -> bool {
    &&& s.schema_version == crate::session_store::CURRENT_SCHEMA_VERSION
    &&& s.commits@.len() == 0
    &&& s.comments@.len() == 0
    &&& s.draft_comment is None
}

/// Builds a fresh session.
pub fn fresh_session() -> (s: ReviewSession)
    ensures
        is_fresh_session(s),
{
    ReviewSession {
        schema_version: crate::session_store::CURRENT_SCHEMA_VERSION,
        commits: Vec::new(),
        comments: Vec::new(),
        draft_comment: None,
    }
}

/// The three-state status from disk presence and in-memory presence:
/// `Active` needs both, a file alone is `ResumeAvailable`, no file is `NoSession`.
pub open spec fn merge_status_spec(file_exists: bool, in_memory_present: bool) -> SessionState {
    if file_exists && in_memory_present {
        SessionState::Active
    } else if file_exists {
        SessionState::ResumeAvailable
    } else {
        SessionState::NoSession
    }
}

/// Derives the final status from whether the session file exists and whether
/// the session is loaded in memory.
pub fn merge_status(file_exists: bool, in_memory_present: bool) -> (s: SessionState)
    ensures
        s == merge_status_spec(file_exists, in_memory_present),
{
    match (file_exists, in_memory_present) {
        (true, true) => SessionState::Active,
        (true, false) => SessionState::ResumeAvailable,
        (false, _) => SessionState::NoSession,
    }
}

/// Starts a fresh session for the repository open as `path`: `not_open`
/// when no repository is open under that path; otherwise a fresh session
/// when its session file does not exist yet, and `session_exists` when it
/// does (an existing session must be resumed or ended first).
pub fn start_review_session_inner(path: &str, registry: &RepoRegistry, session_file_exists: bool) -> (r: Result<
    ReviewSession,
    TrunkError,
>)
    ensures
        lookup_outcome(*registry, path@, r),
        registry.dirs@.contains_key(path@) ==> (r is Err <==> session_file_exists),
        registry.dirs@.contains_key(path@) ==> (r matches Err(e) ==> e.code@ == "session_exists"@),
        r matches Ok(s) ==> is_fresh_session(s),
{
    proof {
        reveal_strlit("session_exists");
        reveal_strlit("not_open");
        assert("session_exists"@[0] != "not_open"@[0]);
    }
    registry.dir_of(path)?;
    if session_file_exists {
        return Err(
            TrunkError::new(
                "session_exists",
                "A review session already exists for this repository — resume or end it first",
            ),
        );
    }
    Ok(fresh_session())
}

/// The disk half of a session status: `ResumeAvailable` when the file
/// exists, `NoSession` otherwise; never `Active`, which needs the in-memory map.
pub fn get_review_session_status_inner(canonical_path: String, session_file_exists: bool) -> (s:
    SessionStatus)
    ensures
        s.state == merge_status_spec(session_file_exists, false),
        s.file_exists == session_file_exists,
        s.canonical_path == canonical_path,
{
    let state = if session_file_exists {
        SessionState::ResumeAvailable
    } else {
        SessionState::NoSession
    };
    SessionStatus { state, file_exists: session_file_exists, canonical_path }
}

/// The status that the command reports: the disk half promoted to `Active`
/// when the session is also in memory.
pub fn promote_status(status: SessionStatus, in_memory_present: bool) -> (s: SessionStatus)
    ensures
        s.state == merge_status_spec(status.file_exists, in_memory_present),
        s.file_exists == status.file_exists,
        s.canonical_path == status.canonical_path,
{
    SessionStatus {
        state: merge_status(status.file_exists, in_memory_present),
        file_exists: status.file_exists,
        canonical_path: status.canonical_path,
    }
}

/// The status the commands report is the three-state merge of the two
/// halves: the disk half alone is never `Active`, and promoting it with the
/// in-memory half gives `Active` exactly when the file exists and the
/// session is loaded.
pub proof fn lemma_status_merge(file_exists: bool, in_memory_present: bool)
    ensures
        merge_status_spec(file_exists, false) != SessionState::Active,
        (merge_status_spec(file_exists, in_memory_present) == SessionState::Active) <==> (file_exists
            && in_memory_present),
        (merge_status_spec(file_exists, in_memory_present) == SessionState::NoSession) <==> !file_exists,
{
}

/// What resuming a session does with the loaded outcome.
#[derive(Debug)]
pub enum ResumeAction {
    /// Keep the loaded session in memory.
    Insert(ReviewSession),
    /// There was nothing to resume.
    Nothing,
    /// The file was corrupt: move it aside to its `.corrupt` sidecar, persist
    /// this fresh session, then keep it in memory.
    SaveFreshAndInsert(ReviewSession),
}

/// Decides what resuming does with a load outcome: a loaded session is kept,
/// a missing one does nothing, a quarantined corrupt one is replaced by a
/// fresh session that is saved first, and a newer-schema file is refused
/// without creating anything, so a downgrade cannot wipe newer data.
pub fn resume_plan(outcome: LoadOutcome) -> (r: Result<ResumeAction, TrunkError>)
    ensures
        match outcome {
            LoadOutcome::Loaded(s) => r == Ok::<ResumeAction, TrunkError>(ResumeAction::Insert(s)),
            LoadOutcome::Missing => r == Ok::<ResumeAction, TrunkError>(ResumeAction::Nothing),
            LoadOutcome::RecoveredCorrupt => r matches Ok(ResumeAction::SaveFreshAndInsert(s))
                && is_fresh_session(s),
            LoadOutcome::RefusedNewer => r matches Err(e) && e.code@ == "newer_version"@,
        },
{
    match outcome {
        LoadOutcome::Loaded(session) => Ok(ResumeAction::Insert(session)),
        LoadOutcome::Missing => Ok(ResumeAction::Nothing),
        LoadOutcome::RecoveredCorrupt => Ok(ResumeAction::SaveFreshAndInsert(fresh_session())),
        LoadOutcome::RefusedNewer => Err(
            TrunkError::new(
                "newer_version",
                "This review session was written by a newer version of Trunk and cannot be opened",
            ),
        ),
    }
}

/// How a session file that was read is to be treated.
#[derive(PartialEq, Eq, Structural, Clone, Copy, Debug)]
pub enum SessionFileVerdict {
    /// Deserialize it as the session.
    Valid,
    /// Move it aside to a `.corrupt` sidecar and report `RecoveredCorrupt`.
    Corrupt,
    /// Leave it untouched and report `RefusedNewer`.
    Newer,
}

/// The schema version a session file declares: its `schema_version` field
/// when that is an unsigned integer, else 0.
pub open spec fn declared_version(schema_version: Option<u64>) -> u64 {
    match schema_version {
        Some(v) => v,
        None => 0,
    }
}

/// The recovery decision for a session file that was read: text that is not
/// JSON is corrupt; JSON that declares a newer schema version is refused
/// untouched; otherwise the file is valid when it has the shape of a session
/// and corrupt when it does not.
pub open spec fn verdict_spec(is_json: bool, schema_version: Option<u64>, has_session_shape: bool) -> SessionFileVerdict {
    if !is_json {
        SessionFileVerdict::Corrupt
    } else if declared_version(schema_version) > crate::session_store::CURRENT_SCHEMA_VERSION as u64 {
        SessionFileVerdict::Newer
    } else if has_session_shape {
        SessionFileVerdict::Valid
    } else {
        SessionFileVerdict::Corrupt
    }
}

/// Classifies a session file that was read (see `verdict_spec`).
pub fn classify_session_file(
    is_json: bool,
    schema_version: Option<u64>,
    has_session_shape: bool,
) -> (v: SessionFileVerdict)
    ensures
        v == verdict_spec(is_json, schema_version, has_session_shape),
{
    if !is_json {
        return SessionFileVerdict::Corrupt;
    }
    let version: u64 = match schema_version {
        Some(v) => v,
        None => 0,
    };
    if version > crate::session_store::CURRENT_SCHEMA_VERSION as u64 {
        SessionFileVerdict::Newer
    } else if has_session_shape {
        SessionFileVerdict::Valid
    } else {
        SessionFileVerdict::Corrupt
    }
}

/// What reading a repository's session file gave.
#[derive(Debug)]
pub enum SessionRead {
    /// There is no session file.
    Absent,
    /// The file's text is not JSON.
    NotJson,
    /// The file is JSON: the `schema_version` it declares when that is an
    /// unsigned integer, and the session it holds when it has that shape.
    Json { schema_version: Option<u64>, session: Option<ReviewSession> },
}

/// What `serde_json` reads of a session file's text: `None` when the text
/// is not JSON, else the value of its top-level `schema_version` field when
/// that is an unsigned integer that fits in 64 bits (`None` inside when the
/// field is missing or of another kind).
pub uninterp spec fn json_schema_version(raw: Seq<char>) -> Option<Option<u64>>;

/// `serde_json::from_str` into a `serde_json::Value`, then
/// `Value::get("schema_version")` and `Value::as_u64`: the parse is a
/// function of the text alone, named `json_schema_version`.
#[verifier::external_body]
pub(crate) fn parse_session_json(raw: &str) -> (r: Option<Option<u64>>)
    ensures
        r == json_schema_version(raw@),
{
    match serde_json::from_str::<serde_json::Value>(raw) {
        Ok(v) => Some(v.get("schema_version").and_then(|x| x.as_u64())),
        Err(_) => None,
    }
}

/// What the text `raw` of an existing session file reads as: not JSON, or
/// JSON with the schema version it declares and `parsed`, the session it
/// holds when it has a session's shape.
pub fn session_read_from(raw: &str, parsed: Option<ReviewSession>) -> (s: SessionRead)
    ensures
        match json_schema_version(raw@) {
            None => s is NotJson,
            Some(v) => s == (SessionRead::Json { schema_version: v, session: parsed }),
        },
{
    match parse_session_json(raw) {
        None => SessionRead::NotJson,
        Some(v) => SessionRead::Json { schema_version: v, session: parsed },
    }
}

/// The recovery state machine of loading: no file is `Missing`; text that
/// is not JSON, or JSON without a session's shape, is `RecoveredCorrupt`;
/// JSON that declares a newer schema version is `RefusedNewer` whatever its
/// shape; otherwise the session is `Loaded`.
pub open spec fn load_outcome_spec(read: SessionRead) -> LoadOutcome {
    match read {
        SessionRead::Absent => LoadOutcome::Missing,
        SessionRead::NotJson => LoadOutcome::RecoveredCorrupt,
        SessionRead::Json { schema_version, session } => match verdict_spec(
            true,
            schema_version,
            session is Some,
        ) {
            SessionFileVerdict::Newer => LoadOutcome::RefusedNewer,
            SessionFileVerdict::Valid => LoadOutcome::Loaded(session->Some_0),
            SessionFileVerdict::Corrupt => LoadOutcome::RecoveredCorrupt,
        },
    }
}

/// Decides what a read session file loads as (see `load_outcome_spec`).
pub fn load_outcome(read: SessionRead) -> (o: LoadOutcome)
    ensures
        o == load_outcome_spec(read),
{
    match read {
        SessionRead::Absent => LoadOutcome::Missing,
        SessionRead::NotJson => LoadOutcome::RecoveredCorrupt,
        SessionRead::Json { schema_version, session } => {
            match classify_session_file(true, schema_version, session.is_some()) {
                SessionFileVerdict::Newer => LoadOutcome::RefusedNewer,
                SessionFileVerdict::Valid => match session {
                    Some(s) => LoadOutcome::Loaded(s),
                    None => LoadOutcome::RecoveredCorrupt,
                },
                SessionFileVerdict::Corrupt => LoadOutcome::RecoveredCorrupt,
            }
        },
    }
}

/// Resumes the session whose file was read as `read`: a loaded session is
/// kept, a missing file does nothing, a corrupt file is set aside for a fresh
/// session that is saved first, and a newer-schema file is refused untouched.
pub fn resume_review_session_inner(read: SessionRead) -> (r: Result<ResumeAction, TrunkError>)
    ensures
        match load_outcome_spec(read) {
            LoadOutcome::Loaded(s) => r == Ok::<ResumeAction, TrunkError>(ResumeAction::Insert(s)),
            LoadOutcome::Missing => r == Ok::<ResumeAction, TrunkError>(ResumeAction::Nothing),
            LoadOutcome::RecoveredCorrupt => r matches Ok(ResumeAction::SaveFreshAndInsert(s))
                && is_fresh_session(s),
            LoadOutcome::RefusedNewer => r matches Err(e) && e.code@ == "newer_version"@,
        },
{
    resume_plan(load_outcome(read))
}

/// Why removing a session file failed.
#[derive(Debug)]
pub struct RemovalError {
    /// The file was not there.
    pub not_found: bool,
    /// What the system said.
    pub message: String,
}

/// Ends the session of the repository at `canonical` once its file was
/// removed: a file that was already gone counts as removed, so ending is
/// idempotent; any other failure is an `io` error.
pub fn end_review_session_inner(canonical: String, removal: Result<(), RemovalError>) -> (r: Result<
    String,
    TrunkError,
>)
    ensures
        r is Ok <==> (removal is Ok || removal->Err_0.not_found),
        r matches Ok(c) ==> c == canonical,
        match (r, removal) {
            (Err(e), Err(x)) => e.code@ == "io"@ && e.message@ == x.message@,
            _ => true,
        },
{
    match removal {
        Ok(()) => Ok(canonical),
        Err(e) => if e.not_found {
            Ok(canonical)
        } else {
            Err(TrunkError::with_message("io", e.message))
        },
    }
}

/// The session a repository's file holds when it can be taken into memory
/// without touching the file: only a session of exactly the current schema
/// version. A missing, corrupt, newer or older (migration-pending) file
/// gives nothing, and is left for an explicit resume to deal with.
pub open spec fn clean_session_spec(read: SessionRead) -> Option<ReviewSession> {
    match read {
        SessionRead::Json { schema_version, session } => if schema_version == Some(
            crate::session_store::CURRENT_SCHEMA_VERSION as u64,
        ) {
            session
        } else {
            None
        },
        _ => None,
    }
}

/// Picks the session to load into memory when a repository opens (see
/// `clean_session_spec`).
pub fn clean_session(read: SessionRead) -> (r: Option<ReviewSession>)
    ensures
        r == clean_session_spec(read),
{
    match read {
        SessionRead::Json { schema_version, session } => {
            match schema_version {
                Some(v) => if v == crate::session_store::CURRENT_SCHEMA_VERSION as u64 {
                    session
                } else {
                    None
                },
                None => None,
            }
        },
        _ => None,
    }
}

/// The review sessions held in memory, by canonical repository path.
pub struct ReviewSessions {
    pub by_path: StringHashMap<ReviewSession>,
}

impl ReviewSessions {
    /// No session in memory.
    pub fn new() -> (r: ReviewSessions)
        ensures
            r.by_path@ == Map::<Seq<char>, ReviewSession>::empty(),
    {
        ReviewSessions { by_path: StringHashMap::new() }
    }

    /// Keeps `session` as the live session of `canonical`, replacing any.
    pub fn insert(&mut self, canonical: String, session: ReviewSession)
        ensures
            final(self).by_path@ == old(self).by_path@.insert(canonical@, session),
    {
        self.by_path.insert(canonical, session);
    }

    /// Loads `session` for `canonical` only when none is live, so that
    /// reopening a repository never replaces a session being worked on.
    pub fn hydrate(&mut self, canonical: String, session: ReviewSession)
        ensures
            final(self).by_path@ == if old(self).by_path@.contains_key(canonical@) {
                old(self).by_path@
            } else {
                old(self).by_path@.insert(canonical@, session)
            },
    {
        if !self.by_path.contains_key(canonical.as_str()) {
            self.by_path.insert(canonical, session);
        }
    }

    /// Drops the live session of `canonical`; its file is not touched.
    pub fn remove(&mut self, canonical: &str)
        ensures
            final(self).by_path@ == old(self).by_path@.remove(canonical@),
    {
        self.by_path.remove(canonical);
    }

    /// Whether `canonical` has a live session.
    pub fn contains(&self, canonical: &str) -> (b: bool)
        ensures
            b == self.by_path@.contains_key(canonical@),
    {
        self.by_path.contains_key(canonical)
    }

    /// The status reported for `canonical`: the disk half, promoted to
    /// `Active` when the session is also live.
    pub fn status(&self, canonical: String, session_file_exists: bool) -> (s: SessionStatus)
        ensures
            s.state == merge_status_spec(session_file_exists, self.by_path@.contains_key(canonical@)),
            s.file_exists == session_file_exists,
            s.canonical_path == canonical,
    {
        let live = self.contains(canonical.as_str());
        promote_status(get_review_session_status_inner(canonical, session_file_exists), live)
    }
}

/// A session this build saved loads back as itself, both when it is resumed
/// and when a reopened repository takes it into memory.
pub proof fn lemma_saved_session_loads_back(s: ReviewSession)
    requires
        s.schema_version == crate::session_store::CURRENT_SCHEMA_VERSION,
    ensures
        load_outcome_spec(SessionRead::Json { schema_version: Some(s.schema_version as u64), session: Some(s) })
            == LoadOutcome::Loaded(s),
        clean_session_spec(SessionRead::Json { schema_version: Some(s.schema_version as u64), session: Some(s) })
            == Some(s),
{
}

/// A file that declares a newer schema version is never loaded, whatever it
/// holds: resuming refuses it and reopening leaves it alone.
pub proof fn lemma_newer_session_is_refused(v: u64, session: Option<ReviewSession>)
    requires
        v > crate::session_store::CURRENT_SCHEMA_VERSION as u64,
    ensures
        load_outcome_spec(SessionRead::Json { schema_version: Some(v), session }) == LoadOutcome::RefusedNewer,
        clean_session_spec(SessionRead::Json { schema_version: Some(v), session }) is None,
{
}

/// Closing a repository drops only its live session and keeps the file, so
/// its status becomes `ResumeAvailable`; taking the session back into memory
/// on reopen makes it `Active` again.
pub proof fn lemma_close_then_reopen(live: Map<Seq<char>, ReviewSession>, canonical: Seq<char>, s: ReviewSession)
    ensures
        merge_status_spec(true, live.remove(canonical).contains_key(canonical))
            == SessionState::ResumeAvailable,
        merge_status_spec(true, live.remove(canonical).insert(canonical, s).contains_key(canonical))
            == SessionState::Active,
{
}

} // verus!
