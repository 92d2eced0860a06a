//! Policy layer of the credential store.
//!
//! Two physical backends hold secret records: an OS secret manager and a
//! permission-hardened plaintext file. This module fixes everything about
//! them that is not I/O: which backend a process uses, where a record
//! lives, the exact text written, the order of the file operations, and
//! what each operation does to the stored state. The laws at the end
//! state round-trip, idempotent deletion and permission hardening over a
//! model of the stored state; the surrounding program only performs the
//! reads, writes and mode changes that the plans here dictate.

use vstd::prelude::*;

use crate::credential::{
    spec_decode, spec_encode, CredentialView, SessionCredential, StoreError, lemma_encode_decode,
    decode_credential, encode_credential,
};

verus! {

/// Which physical store holds secret records; decided once at startup.
#[derive(Debug, Clone, Copy, PartialEq, Eq, Structural)]
pub enum Backend {
    /// Permission-hardened plaintext file.
    File,
    /// OS-provided secret manager.
    SecretManager,
}

/// Startup-time backend choice: a set toggle forces the file backend,
/// otherwise the OS secret manager is used. The toggle is read once and
/// the resulting value is threaded through, never re-read.
pub fn select_backend(file_backend_forced: bool) -> (r: Backend)
    ensures
        r == (if file_backend_forced {
            Backend::File
        } else {
            Backend::SecretManager
        }),
{
    if file_backend_forced {
        Backend::File
    } else {
        Backend::SecretManager
    }
}

/// Path of a user's record below the state directory.
pub open spec fn spec_session_rel_path(user_id: Seq<char>) -> Seq<char> {
    user_id + "/session.json"@
}

/// Path of a user's protocol state store below the state directory.
pub open spec fn spec_state_db_rel_path(user_id: Seq<char>) -> Seq<char> {
    user_id + "/state.sled"@
}

/// Relative path of the file-backend record for one identity.
pub fn session_rel_path(user_id: &str) -> (r: String)
    ensures
        r@ == spec_session_rel_path(user_id@),
{
    let mut out = user_id.to_owned();
    out.append("/session.json");
    out
}

/// Relative path of the protocol state store for one identity.
pub fn state_db_rel_path(user_id: &str) -> (r: String)
    ensures
        r@ == spec_state_db_rel_path(user_id@),
{
    let mut out = user_id.to_owned();
    out.append("/state.sled");
    out
}

/// The file-backend record path: an explicit override wins, otherwise the
/// record sits at its per-identity path below the state directory.
pub fn session_file_path(override_path: Option<String>, state_dir: &str, user_id: &str) -> (r:
    String)
    ensures
        match override_path {
            Some(p) => r@ == p@,
            None => r@ == state_dir@ + "/"@ + spec_session_rel_path(user_id@),
        },
{
    match override_path {
        Some(p) => p,
        None => {
            let mut out = state_dir.to_owned();
            out.append("/");
            let rel = session_rel_path(user_id);
            out.append(rel.as_str());
            proof {
                assert(out@ =~= state_dir@ + "/"@ + spec_session_rel_path(user_id@));
            }
            out
        },
    }
}

/// `s` with exactly one newline appended when it does not end in one.
pub open spec fn spec_newline_terminated(s: Seq<char>) -> Seq<char> {
    if s.len() > 0 && s.last() == '\n' {
        s
    } else {
        s.push('\n')
    }
}

/// Appends the terminating newline unless the text already ends in one.
pub fn newline_terminated(s: String) -> (r: String)
    ensures
        r@ == spec_newline_terminated(s@),
{
    let ghost s0 = s@;
    let n = s.as_str().unicode_len();
    if n > 0 && s.as_str().get_char(n - 1) == '\n' {
        s
    } else {
        let mut out = s;
        proof {
            reveal_strlit("\n");
        }
        out.append("\n");
        proof {
            assert(out@ =~= s0.push('\n'));
        }
        out
    }
}

/// The exact text a file-backend record holds: the encoded credential,
/// newline-terminated.
pub open spec fn spec_file_record(c: CredentialView) -> Seq<char> {
    spec_newline_terminated(spec_encode(c))
}

/// Serializes a credential to the file backend's record text.
pub fn file_record(c: &SessionCredential) -> (r: String)
    ensures
        r@ == spec_file_record(c@),
        c@.wf(),
{
    newline_terminated(encode_credential(c))
}

/// Serializes a credential to the secret-manager backend's record text.
pub fn secret_manager_record(c: &SessionCredential) -> (r: String)
    ensures
        r@ == spec_encode(c@),
        c@.wf(),
{
    encode_credential(c)
}

/// Owner-only read/write permission bits required of a persisted record.
pub fn owner_only_mode() -> (r: u32)
    ensures
        r == 0o600u32,
{
    0o600
}

/// One step of the file-backend persist sequence.
pub enum FileWriteStep {
    /// Replace the whole file with this text, creating it if absent.
    WriteFull { content: String },
    /// Set the file's permission bits.
    SetMode { mode: u32 },
}

/// The persist sequence of the file backend: write the record in full,
/// then restrict the permission bits to owner read/write. The order is
/// deliberate and must not be reversed by the caller.
pub fn persist_file_plan(c: &SessionCredential) -> (r: Vec<FileWriteStep>)
    ensures
        r@.len() == 2,
        r@[0] matches FileWriteStep::WriteFull { content } && content@ == spec_file_record(c@),
        r@[1] matches FileWriteStep::SetMode { mode } && mode == 0o600u32,
        c@.wf(),
{
    let content = file_record(c);
    let mut plan: Vec<FileWriteStep> = Vec::new();
    plan.push(FileWriteStep::WriteFull { content });
    plan.push(FileWriteStep::SetMode { mode: 0o600 });
    plan
}

/// Model of the one file behind the file backend.
pub struct FileState {
    /// Whether the file exists at all.
    pub exists: bool,
    /// Its text.
    pub content: Seq<char>,
    /// Its permission bits.
    pub mode: u32,
}

/// Effect of one step on the file.
pub open spec fn spec_apply_step(f: FileState, step: FileWriteStep) -> FileState {
    match step {
        FileWriteStep::WriteFull { content } => FileState {
            exists: true,
            content: content@,
            mode: f.mode,
        },
        FileWriteStep::SetMode { mode } => FileState { exists: f.exists, content: f.content, mode },
    }
}

/// Effect of a whole step sequence on the file, first step first.
pub open spec fn spec_apply_plan(f: FileState, steps: Seq<FileWriteStep>) -> FileState
    decreases steps.len(),
{
    if steps.len() == 0 {
        f
    } else {
        spec_apply_step(spec_apply_plan(f, steps.drop_last()), steps.last())
    }
}

/// Permission hardening: whatever the file held and whatever its prior
/// mode, after the persist sequence it exists, holds exactly the record
/// text, and its permission bits are owner read/write only.
pub proof fn lemma_persist_plan_hardens(f: FileState, steps: Seq<FileWriteStep>, c: CredentialView)
    requires
        steps.len() == 2,
        steps[0] matches FileWriteStep::WriteFull { content } && content@ == spec_file_record(c),
        steps[1] matches FileWriteStep::SetMode { mode } && mode == 0o600u32,
    ensures
        spec_apply_plan(f, steps).exists,
        spec_apply_plan(f, steps).content == spec_file_record(c),
        spec_apply_plan(f, steps).mode == 0o600u32,
{
    let dl = steps.drop_last();
    assert(dl.drop_last() =~= Seq::<FileWriteStep>::empty());
    assert(dl.last() == steps[0]);
    assert(spec_apply_plan(f, dl.drop_last()) == f);
    assert(spec_apply_plan(f, dl) == spec_apply_step(f, steps[0]));
    assert(spec_apply_plan(f, steps) == spec_apply_step(spec_apply_step(f, steps[0]), steps[1]));
}

/// Model of one backend's stored records: the record text, if any, held
/// for each identity. Writing always replaces; at most one record exists
/// per identity.
pub type StoreModel = Map<Seq<char>, Seq<char>>;

/// What loading an identity's record yields.
pub enum LoadOutcome {
    /// No record is stored. The physical backends report this as a read
    /// error indistinguishable from one; the model keeps it distinct.
    Missing,
    /// A record is stored but does not decode.
    Corrupted,
    /// The stored record decodes to this credential.
    Loaded { credential: CredentialView },
}

/// The store after persisting `c` for `user`: its record is replaced.
pub open spec fn spec_store_persist(m: StoreModel, user: Seq<char>, record: Seq<char>) -> StoreModel {
    m.insert(user, record)
}

/// The store after deleting `user`'s record; absence is not an error.
pub open spec fn spec_store_delete(m: StoreModel, user: Seq<char>) -> StoreModel {
    m.remove(user)
}

/// What loading `user` from the store yields.
pub open spec fn spec_store_load(m: StoreModel, user: Seq<char>) -> LoadOutcome {
    if m.dom().contains(user) {
        match spec_decode(m[user]) {
            Some(c) => LoadOutcome::Loaded { credential: c },
            None => LoadOutcome::Corrupted,
        }
    } else {
        LoadOutcome::Missing
    }
}

/// Round trip: persisting a credential and loading the same identity
/// yields that credential again, for the file record form and for the
/// secret-manager record form alike.
pub proof fn lemma_persist_then_load(m: StoreModel, user: Seq<char>, c: CredentialView)
    requires
        c.wf(),
    ensures
        spec_store_load(spec_store_persist(m, user, spec_file_record(c)), user)
            == (LoadOutcome::Loaded { credential: c }),
        spec_store_load(spec_store_persist(m, user, spec_encode(c)), user)
            == (LoadOutcome::Loaded { credential: c }),
{
    lemma_encode_decode(c);
}

/// Persisting one identity's record leaves every other identity's record
/// untouched.
pub proof fn lemma_persist_preserves_others(
    m: StoreModel,
    user: Seq<char>,
    record: Seq<char>,
    other: Seq<char>,
)
    requires
        other != user,
    ensures
        spec_store_load(spec_store_persist(m, user, record), other) == spec_store_load(m, other),
{
}

/// Deletion semantics: after a delete the identity loads as missing,
/// never as a stale credential; deleting twice is the same as deleting
/// once; and other identities' records are untouched.
pub proof fn lemma_delete_is_idempotent(m: StoreModel, user: Seq<char>, other: Seq<char>)
    requires
        other != user,
    ensures
        spec_store_load(spec_store_delete(m, user), user) is Missing,
        spec_store_delete(spec_store_delete(m, user), user) == spec_store_delete(m, user),
        spec_store_load(spec_store_delete(m, user), other) == spec_store_load(m, other),
{
    assert(spec_store_delete(spec_store_delete(m, user), user) =~= spec_store_delete(m, user));
}

/// Decodes text read back from either backend; the distinction between a
/// missing record and an unreadable one is made by the caller that did
/// the read, not here.
pub fn load_record(raw: &str) -> (r: Result<SessionCredential, StoreError>)
    ensures
        match r {
            Ok(c) => spec_decode(raw@) == Some(c@),
            Err(e) => spec_decode(raw@) is None && e is Corrupt,
        },
{
    decode_credential(raw)
}

/// Best-effort cleanup: the messages of the steps that failed, in step
/// order. Cleanup never stops at a failed step.
pub open spec fn spec_cleanup_messages(
    session: Option<String>,
    state_db: Option<String>,
    meta: Option<String>,
) -> Seq<String> {
    (match session {
        Some(m) => seq![m],
        None => Seq::empty(),
    }) + (match state_db {
        Some(m) => seq![m],
        None => Seq::empty(),
    }) + (match meta {
        Some(m) => seq![m],
        None => Seq::empty(),
    })
}

/// Collects the failures of the three cleanup steps (delete the secret
/// record, delete the state store, delete the metadata file) so the
/// caller can report them; a failed step never aborts the remaining ones.
pub fn cleanup_report(session: Option<String>, state_db: Option<String>, meta: Option<String>) -> (r:
    Vec<String>)
    ensures
        r@ == spec_cleanup_messages(session, state_db, meta),
{
    let mut out: Vec<String> = Vec::new();
    match session {
        Some(m) => out.push(m),
        None => (),
    }
    match state_db {
        Some(m) => out.push(m),
        None => (),
    }
    match meta {
        Some(m) => out.push(m),
        None => (),
    }
    proof {
        assert(out@ =~= spec_cleanup_messages(session, state_db, meta));
    }
    out
}

} // verus!
