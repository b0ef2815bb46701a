//! Retaining the rollout that an app server leaves behind: which file it is, and
//! in which order it is copied and removed.

use vstd::prelude::*;
use vstd::string::StringSliceAdditionalSpecFns;
use vstd::utf8::valid_utf8;

use crate::bytes::{append_bytes, bytes_equal, copy_bytes, lowercase_hex_digit};
use crate::decimal::{are_ascii_digits, ascii_digits};
use crate::git_artifact::header::{find_newline, first_newline};
use crate::path::{absolute, byte_lists, is_absolute, path_parts, split_path, starts_with_parts};
use crate::text::{text_equal, utf8_text};

verus! {

/// The longest first record of a rollout that is read.
pub const MAXIMUM_SESSION_META_BYTES: u64 = 16_777_216;

/// The most that is retained of a rollout.
pub const MAXIMUM_RETAINED_ROLLOUT_BYTES: u64 = 67_108_864;

/// Why a rollout was not retained.
#[derive(Clone, Copy, Debug, PartialEq, Eq, Structural)]
pub enum CodexRolloutRejectionReason {
    StateBoundaryUnavailable,
    PathOutsideStateBoundary,
    PathShapeInvalid,
    PathComponentInvalid,
    PathReplaced,
    RolloutMissing,
    UnexpectedFileKind,
    ThreadIdentityMismatch,
    RetainedStorageUnavailable,
    AmbientRemovalFailed,
    RolloutTooLarge,
}

/// Whether a byte of a thread identifier is the one that its place asks for.
pub open spec fn thread_id_byte(index: int, byte: u8) -> bool {
    if index == 8 || index == 13 || index == 18 || index == 23 {
        byte == '-' as u8
    } else {
        lowercase_hex_digit(byte)
    }
}

/// Whether `value` is a thread identifier: a version 7 UUID in lowercase.
pub open spec fn codex_thread_id(value: Seq<u8>) -> bool {
    &&& value.len() == 36
    &&& forall|i: int| 0 <= i < value.len() ==> thread_id_byte(i, #[trigger] value[i])
    &&& value[14] == '7' as u8
    &&& value[19] == '8' as u8 || value[19] == '9' as u8 || value[19] == 'a' as u8 || value[19]
        == 'b' as u8
}

/// Whether `value` is a thread identifier.
pub fn is_codex_thread_id(value: &str) -> (valid: bool)
    ensures
        valid == codex_thread_id(value.spec_bytes()),
{
    let bytes: &[u8] = value.as_bytes();
    if bytes.len() != 36 {
        return false;
    }
    let mut index: usize = 0;
    while index < 36
        invariant
            index <= 36,
            bytes@.len() == 36,
            bytes@ == value.spec_bytes(),
            forall|i: int| 0 <= i < index ==> thread_id_byte(i, #[trigger] bytes@[i]),
        decreases 36 - index,
    {
        let byte: u8 = bytes[index];
        let fits: bool = if index == 8 || index == 13 || index == 18 || index == 23 {
            byte == '-' as u8
        } else {
            ('0' as u8 <= byte && byte <= '9' as u8) || ('a' as u8 <= byte && byte <= 'f' as u8)
        };
        if !fits {
            assert(!thread_id_byte(index as int, bytes@[index as int]));
            return false;
        }
        index = index + 1;
    }
    bytes[14] == '7' as u8 && (bytes[19] == '8' as u8 || bytes[19] == '9' as u8 || bytes[19]
        == 'a' as u8 || bytes[19] == 'b' as u8)
}

/// Whether the file name is that of the thread's rollout.
pub open spec fn rollout_name(name: Seq<u8>, thread_id: Seq<u8>) -> bool {
    let ending = "-".spec_bytes() + thread_id + ".jsonl".spec_bytes();
    &&& valid_utf8(name)
    &&& name.len() >= 8
    &&& name.take(8) == "rollout-".spec_bytes()
    &&& name.len() >= ending.len()
    &&& name.skip(name.len() - ending.len()) == ending
}

/// Whether the file name is that of the thread's rollout.
pub fn rollout_name_matches(name: &[u8], thread_id: &str) -> (matches: bool)
    ensures
        matches == rollout_name(name@, thread_id.spec_bytes()),
{
    if utf8_text(name).is_none() {
        return false;
    }
    let mut ending: Vec<u8> = copy_bytes("-".as_bytes());
    append_bytes(&mut ending, thread_id.as_bytes());
    append_bytes(&mut ending, ".jsonl".as_bytes());
    assert(ending@ =~= "-".spec_bytes() + thread_id.spec_bytes() + ".jsonl".spec_bytes());
    if name.len() < 8 || name.len() < ending.len() {
        return false;
    }
    let front: &[u8] = &name[0..8];
    let back: &[u8] = &name[name.len() - ending.len()..name.len()];
    assert(front@ =~= name@.take(8));
    assert(back@ =~= name@.skip(name@.len() - ending@.len()));
    bytes_equal(front, "rollout-".as_bytes()) && bytes_equal(back, ending.as_slice())
}

/// Whether a part of a path is that many digits.
pub fn is_ascii_digits(component: &[u8], length: usize) -> (digits: bool)
    ensures
        digits == (component@.len() == length && ascii_digits(component@)),
{
    component.len() == length && are_ascii_digits(component)
}

/// Whether the parts behind the agent's home are those of the thread's rollout:
/// `sessions`, a year, a month, a day and the file name.
pub open spec fn rollout_shape(parts: Seq<Seq<u8>>, thread_id: Seq<u8>) -> bool {
    &&& parts.len() == 5
    &&& parts[0] == "sessions".spec_bytes()
    &&& parts[1].len() == 4 && ascii_digits(parts[1])
    &&& parts[2].len() == 2 && ascii_digits(parts[2])
    &&& parts[3].len() == 2 && ascii_digits(parts[3])
    &&& rollout_name(parts[4], thread_id)
}

/// Where within the agent's home the thread's rollout is, given the path that the
/// app server reported.
pub open spec fn rollout_location(reported: Seq<u8>, home: Seq<u8>, thread_id: Seq<u8>) -> Result<
    Seq<Seq<u8>>,
    CodexRolloutRejectionReason,
> {
    let parts = path_parts(reported, 0);
    let home_parts = path_parts(home, 0);
    if !absolute(reported) || !absolute(home) || !home_parts.is_prefix_of(parts) {
        Err(CodexRolloutRejectionReason::PathOutsideStateBoundary)
    } else if rollout_shape(parts.skip(home_parts.len() as int), thread_id) {
        Ok(parts.skip(home_parts.len() as int))
    } else {
        Err(CodexRolloutRejectionReason::PathShapeInvalid)
    }
}

/// Finds where within the agent's home the thread's rollout is.
pub fn locate_rollout(reported: &[u8], home: &[u8], thread_id: &str) -> (outcome: Result<
    Vec<Vec<u8>>,
    CodexRolloutRejectionReason,
>)
    ensures
        match rollout_location(reported@, home@, thread_id.spec_bytes()) {
            Ok(parts) => outcome matches Ok(found) && byte_lists(found@) == parts,
            Err(reason) => outcome matches Err(reported) && reported == reason,
        },
{
    if !is_absolute(reported) || !is_absolute(home) {
        return Err(CodexRolloutRejectionReason::PathOutsideStateBoundary);
    }
    let parts: Vec<Vec<u8>> = split_path(reported);
    let home_parts: Vec<Vec<u8>> = split_path(home);
    let ghost part_models = byte_lists(parts@);
    let ghost home_models = byte_lists(home_parts@);
    if !starts_with_parts(&parts, &home_parts) {
        return Err(CodexRolloutRejectionReason::PathOutsideStateBoundary);
    }
    let mut index: usize = home_parts.len();
    assert(home_models.len() == home_parts@.len() && part_models.len() == parts@.len());
    assert(part_models.subrange(index as int, index as int) =~= Seq::empty());
    assert(byte_lists(Seq::<Vec<u8>>::empty()) =~= Seq::empty());
    let mut found: Vec<Vec<u8>> = Vec::new();
    while index < parts.len()
        invariant
            home_parts@.len() <= index <= parts@.len(),
            part_models == byte_lists(parts@),
            byte_lists(found@) == part_models.subrange(home_parts@.len() as int, index as int),
        decreases parts@.len() - index,
    {
        let ghost before = byte_lists(found@);
        found.push(copy_bytes(parts[index].as_slice()));
        assert(byte_lists(found@) =~= before.push(part_models[index as int]));
        assert(byte_lists(found@) =~= part_models.subrange(
            home_parts@.len() as int,
            index + 1,
        ));
        index = index + 1;
    }
    assert(byte_lists(found@) =~= part_models.skip(home_models.len() as int));
    if found.len() != 5 {
        return Err(CodexRolloutRejectionReason::PathShapeInvalid);
    }
    let ghost shape = byte_lists(found@);
    assert(shape[0] == found@[0]@ && shape[1] == found@[1]@ && shape[2] == found@[2]@ && shape[3]
        == found@[3]@ && shape[4] == found@[4]@);
    if !bytes_equal(found[0].as_slice(), "sessions".as_bytes()) || !is_ascii_digits(
        found[1].as_slice(),
        4,
    ) || !is_ascii_digits(found[2].as_slice(), 2) || !is_ascii_digits(found[3].as_slice(), 2)
        || !rollout_name_matches(found[4].as_slice(), thread_id) {
        return Err(CodexRolloutRejectionReason::PathShapeInvalid);
    }
    Ok(found)
}

/// Which file a descriptor or a name leads to.
#[derive(Clone, Copy, Debug, PartialEq, Eq, Structural)]
pub struct FileIdentity {
    pub device: u64,
    pub inode: u64,
}

/// What a name leads to.
#[derive(Clone, Copy, Debug, PartialEq, Eq, Structural)]
pub enum NamedFile {
    Missing,
    Unavailable,
    Present { regular: bool, identity: FileIdentity },
}

/// What is known of a path.
#[derive(Clone, Copy, Debug, PartialEq, Eq, Structural)]
pub enum PathStatus {
    Present,
    Missing,
    Unknown,
}

/// What to do with the path of the agent's home.
#[derive(Clone, Copy, Debug, PartialEq, Eq, Structural)]
pub enum HomeAction {
    Validate,
    Create,
    Refuse,
}

/// Why the directory of a rollout could not be opened, if it could not.
pub open spec fn judge_rollout_parent_rule(
    boundary_available: bool,
    components_opened: bool,
) -> Option<CodexRolloutRejectionReason> {
    if !boundary_available {
        Some(CodexRolloutRejectionReason::StateBoundaryUnavailable)
    } else if !components_opened {
        Some(CodexRolloutRejectionReason::PathComponentInvalid)
    } else {
        None
    }
}

/// Why the directory of a rollout could not be opened, if it could not.
pub fn judge_rollout_parent(
    boundary_available: bool,
    components_opened: bool,
) -> (decided: Option<CodexRolloutRejectionReason>)
    ensures
        decided == judge_rollout_parent_rule(boundary_available, components_opened),
{
    if !boundary_available {
        Some(CodexRolloutRejectionReason::StateBoundaryUnavailable)
    } else if !components_opened {
        Some(CodexRolloutRejectionReason::PathComponentInvalid)
    } else {
        None
    }
}

/// Judges a rollout by what its name and, once opened, its descriptor lead to: one
/// regular file, the same both times.
pub open spec fn judge_rollout_file_rule(
    named: NamedFile,
    opened: Option<FileIdentity>,
) -> Result<FileIdentity, CodexRolloutRejectionReason> {
    match named {
        NamedFile::Missing => Err(CodexRolloutRejectionReason::RolloutMissing),
        NamedFile::Unavailable => Err(CodexRolloutRejectionReason::PathComponentInvalid),
        NamedFile::Present { regular, identity } => if !regular {
            Err(CodexRolloutRejectionReason::UnexpectedFileKind)
        } else {
            match opened {
                Some(found) => if found == identity {
                    Ok(found)
                } else {
                    Err(CodexRolloutRejectionReason::PathReplaced)
                },
                None => Err(CodexRolloutRejectionReason::PathReplaced),
            }
        },
    }
}

/// Judges a rollout by what its name and, once opened, its descriptor lead to: one
/// regular file, the same both times.
pub fn judge_rollout_file(
    named: NamedFile,
    opened: Option<FileIdentity>,
) -> (decided: Result<FileIdentity, CodexRolloutRejectionReason>)
    ensures
        decided == judge_rollout_file_rule(named, opened),
{
    match named {
        NamedFile::Missing => Err(CodexRolloutRejectionReason::RolloutMissing),
        NamedFile::Unavailable => Err(CodexRolloutRejectionReason::PathComponentInvalid),
        NamedFile::Present { regular, identity } => if !regular {
            Err(CodexRolloutRejectionReason::UnexpectedFileKind)
        } else {
            match opened {
                Some(found) => if found == identity {
                    Ok(found)
                } else {
                    Err(CodexRolloutRejectionReason::PathReplaced)
                },
                None => Err(CodexRolloutRejectionReason::PathReplaced),
            }
        },
    }
}

/// Why the path of an opened rollout does not lead to it any more, if it does not.
pub open spec fn judge_rollout_path_rule(
    bound: bool,
    parent_unchanged: bool,
    named: NamedFile,
    source: FileIdentity,
) -> Option<CodexRolloutRejectionReason> {
    match named {
        NamedFile::Present { regular, identity } => if bound && parent_unchanged && regular
            && identity == source {
            None
        } else {
            Some(CodexRolloutRejectionReason::PathReplaced)
        },
        _ => Some(CodexRolloutRejectionReason::PathReplaced),
    }
}

/// Why the path of an opened rollout does not lead to it any more, if it does not.
pub fn judge_rollout_path(
    bound: bool,
    parent_unchanged: bool,
    named: NamedFile,
    source: FileIdentity,
) -> (decided: Option<CodexRolloutRejectionReason>)
    ensures
        decided == judge_rollout_path_rule(bound, parent_unchanged, named, source),
{
    match named {
        NamedFile::Present { regular, identity } => if bound && parent_unchanged && regular
            && identity == source {
            None
        } else {
            Some(CodexRolloutRejectionReason::PathReplaced)
        },
        _ => Some(CodexRolloutRejectionReason::PathReplaced),
    }
}

/// What to do with the path of the agent's home: use what is there, make it where
/// nothing is there, or give up where that cannot be known.
pub open spec fn home_disposition_rule(status: PathStatus) -> HomeAction {
    match status {
        PathStatus::Present => HomeAction::Validate,
        PathStatus::Missing => HomeAction::Create,
        PathStatus::Unknown => HomeAction::Refuse,
    }
}

/// What to do with the path of the agent's home: use what is there, make it where
/// nothing is there, or give up where that cannot be known.
pub fn home_disposition(status: PathStatus) -> (decided: HomeAction)
    ensures
        decided == home_disposition_rule(status),
{
    match status {
        PathStatus::Present => HomeAction::Validate,
        PathStatus::Missing => HomeAction::Create,
        PathStatus::Unknown => HomeAction::Refuse,
    }
}

/// What the first record of a rollout tells.
#[derive(Debug, PartialEq, Eq)]
pub struct SessionRecord {
    pub kind: Option<String>,
    pub thread_id: Option<String>,
    pub session_id: Option<String>,
}

/// The text of a string that may be there.
pub open spec fn record_text(string: Option<String>) -> Option<Seq<char>> {
    match string {
        Some(string) => Some(string@),
        None => None,
    }
}

/// The parts of a record.
pub open spec fn record_parts(record: SessionRecord) -> (
    Option<Seq<char>>,
    Option<Seq<char>>,
    Option<Seq<char>>,
) {
    (record_text(record.kind), record_text(record.thread_id), record_text(record.session_id))
}

#[verifier::external_type_specification]
#[verifier::external_body]
pub struct ExJsonError(serde_json::Error);

/// The text that `serde_json` finds at a JSON pointer in a record, if there is one.
/// `None` where the record is no JSON.
pub uninterp spec fn json_text_at(record: Seq<u8>, pointer: Seq<char>) -> Option<
    Option<Seq<char>>,
>;

/// `serde_json::from_slice` into a JSON value, and the string that
/// `serde_json::Value::pointer` finds in it, if it finds one. What comes back is a
/// function of the bytes and the pointer.
#[verifier::external_body]
fn read_json_text(record: &[u8], pointer: &str) -> (read: Result<
    Option<String>,
    serde_json::Error,
>)
    ensures
        match read {
            Ok(found) => json_text_at(record@, pointer@) == Some(record_text(found)),
            Err(_) => json_text_at(record@, pointer@) is None,
        },
{
    let value = serde_json::from_slice::<serde_json::Value>(record)?;
    Ok(value.pointer(pointer).and_then(serde_json::Value::as_str).map(str::to_owned))
}

/// What the first record of a rollout tells: its type, and the identifiers of its
/// thread and session, each as far as it is there and is text. `None` where the
/// record is no JSON.
pub open spec fn session_record(record: Seq<u8>) -> Option<
    (Option<Seq<char>>, Option<Seq<char>>, Option<Seq<char>>),
> {
    match (
        json_text_at(record, "/type"@),
        json_text_at(record, "/payload/id"@),
        json_text_at(record, "/payload/session_id"@),
    ) {
        (Some(kind), Some(thread_id), Some(session_id)) => Some((kind, thread_id, session_id)),
        _ => None,
    }
}

/// Reads what the first record of a rollout tells.
fn read_session_record(record: &[u8]) -> (read: Result<SessionRecord, serde_json::Error>)
    ensures
        match read {
            Ok(found) => session_record(record@) == Some(record_parts(found)),
            Err(_) => session_record(record@) is None,
        },
{
    let kind: Option<String> = match read_json_text(record, "/type") {
        Ok(kind) => kind,
        Err(error) => {
            return Err(error);
        },
    };
    let thread_id: Option<String> = match read_json_text(record, "/payload/id") {
        Ok(thread_id) => thread_id,
        Err(error) => {
            return Err(error);
        },
    };
    let session_id: Option<String> = match read_json_text(record, "/payload/session_id") {
        Ok(session_id) => session_id,
        Err(error) => {
            return Err(error);
        },
    };
    Ok(SessionRecord { kind, thread_id, session_id })
}

/// Whether a record starts the rollout of that thread.
pub open spec fn record_matches(
    record: (Option<Seq<char>>, Option<Seq<char>>, Option<Seq<char>>),
    thread_id: Seq<char>,
) -> bool {
    record == (Some("session_meta"@), Some(thread_id), Some(thread_id))
}

/// Whether a text is there and is the expected one.
fn is_text(text: &Option<String>, expected: &str) -> (is: bool)
    ensures
        is == (record_text(*text) == Some(expected@)),
{
    match text {
        Some(text) => text_equal(text.as_str(), expected),
        None => false,
    }
}

/// Whether a record starts the rollout of that thread.
pub fn session_record_matches(record: &SessionRecord, thread_id: &str) -> (matches: bool)
    ensures
        matches == record_matches(record_parts(*record), thread_id@),
{
    is_text(&record.kind, "session_meta") && is_text(&record.thread_id, thread_id) && is_text(
        &record.session_id,
        thread_id,
    )
}

/// The first record of a rollout: up to its first line feed, or all of it.
pub open spec fn first_record(rollout: Seq<u8>) -> Seq<u8> {
    let window = if rollout.len() <= MAXIMUM_SESSION_META_BYTES {
        rollout.len() as int
    } else {
        MAXIMUM_SESSION_META_BYTES + 1
    };
    match first_newline(rollout, 0, window) {
        Some(newline) => rollout.take(newline + 1),
        None => rollout.take(window),
    }
}

/// Why a rollout is not that of the thread, if it is not.
pub open spec fn identity_refusal(rollout: Seq<u8>, thread_id: Seq<char>) -> Option<
    CodexRolloutRejectionReason,
> {
    let record = first_record(rollout);
    if 0 < record.len() <= MAXIMUM_SESSION_META_BYTES && (session_record(record) matches Some(
        parts,
    ) && record_matches(parts, thread_id)) {
        None
    } else {
        Some(CodexRolloutRejectionReason::ThreadIdentityMismatch)
    }
}

/// Checks that a rollout, of which at least the bytes that are read are given, is
/// that of the thread.
pub fn validate_rollout_identity(rollout: &[u8], thread_id: &str) -> (outcome: Result<
    (),
    CodexRolloutRejectionReason,
>)
    ensures
        outcome == (match identity_refusal(rollout@, thread_id@) {
            Some(reason) => Err(reason),
            None => Ok(()),
        }),
{
    let window: usize = if rollout.len() as u64 <= MAXIMUM_SESSION_META_BYTES {
        rollout.len()
    } else {
        16_777_217
    };
    let end: usize = match find_newline(rollout, 0, window) {
        Some(newline) => newline + 1,
        None => window,
    };
    let record: &[u8] = &rollout[0..end];
    assert(record@ =~= first_record(rollout@));
    if record.len() == 0 || record.len() as u64 > MAXIMUM_SESSION_META_BYTES {
        return Err(CodexRolloutRejectionReason::ThreadIdentityMismatch);
    }
    match read_session_record(record) {
        Ok(found) => if session_record_matches(&found, thread_id) {
            Ok(())
        } else {
            Err(CodexRolloutRejectionReason::ThreadIdentityMismatch)
        },
        Err(_) => Err(CodexRolloutRejectionReason::ThreadIdentityMismatch),
    }
}

/// Where retention stands.
#[derive(Clone, Copy, Debug, PartialEq, Eq, Structural)]
pub enum RetentionPhase {
    Binding,
    Opening,
    Identifying,
    Copying,
    Verifying { complete: bool },
    Removing { complete: bool },
    Syncing { complete: bool },
    Keeping { complete: bool },
    Ended,
}

/// What retention remembers: where it stands, and whether the app server wrote a
/// rollout at all.
#[derive(Clone, Copy, Debug, PartialEq, Eq, Structural)]
pub struct RetentionState {
    pub phase: RetentionPhase,
    pub materialized: bool,
}

/// What doing retention's last action came to.
#[derive(Clone, Copy, Debug, PartialEq, Eq, Structural)]
pub enum RetentionEvent {
    /// It succeeded or not.
    Answered { succeeded: bool },
    /// It was judged, and perhaps refused.
    Judged { refusal: Option<CodexRolloutRejectionReason> },
    /// The rollout was copied, all of it or as much as is retained.
    Copied { complete: bool },
    /// The rollout could not be copied.
    CopyFailed,
    /// The copy was kept.
    Kept,
}

/// What retention does next.
#[derive(Clone, Copy, Debug, PartialEq, Eq, Structural)]
pub enum RetentionAction {
    VerifyBinding,
    OpenRollout,
    ValidateIdentity,
    CopyRollout,
    VerifyPath,
    RemoveSource,
    SyncParent,
    KeepCopy,
    Refuse { reason: CodexRolloutRejectionReason },
    Finish,
    Rest,
}

/// Begins retention: the agent's home must still be where it was.
pub fn begin_retention(materialized: bool) -> (begun: (RetentionState, RetentionAction))
    ensures
        begun == (
            RetentionState { phase: RetentionPhase::Binding, materialized },
            RetentionAction::VerifyBinding,
        ),
{
    (
        RetentionState { phase: RetentionPhase::Binding, materialized },
        RetentionAction::VerifyBinding,
    )
}

/// Goes on to another point, doing `action` next.
pub open spec fn retaining_rule(
    state: RetentionState,
    phase: RetentionPhase,
    action: RetentionAction,
) -> (RetentionState, RetentionAction) {
    (RetentionState { phase, ..state }, action)
}

/// Goes on to another point, doing `action` next.
pub fn retaining(
    state: RetentionState,
    phase: RetentionPhase,
    action: RetentionAction,
) -> (decided: (RetentionState, RetentionAction))
    ensures
        decided == retaining_rule(state, phase, action),
{
    (RetentionState { phase, ..state }, action)
}

/// Ends without success.
pub open spec fn refused_rule(
    state: RetentionState,
    reason: CodexRolloutRejectionReason,
) -> (RetentionState, RetentionAction) {
    (
        RetentionState { phase: RetentionPhase::Ended, ..state },
        RetentionAction::Refuse { reason },
    )
}

/// Ends without success.
pub fn refused(
    state: RetentionState,
    reason: CodexRolloutRejectionReason,
) -> (decided: (RetentionState, RetentionAction))
    ensures
        decided == refused_rule(state, reason),
{
    (
        RetentionState { phase: RetentionPhase::Ended, ..state },
        RetentionAction::Refuse { reason },
    )
}

/// Ends with success.
pub open spec fn retained_rule(state: RetentionState) -> (RetentionState, RetentionAction) {
    (RetentionState { phase: RetentionPhase::Ended, ..state }, RetentionAction::Finish)
}

/// Ends with success.
pub fn retained(state: RetentionState) -> (decided: (RetentionState, RetentionAction))
    ensures
        decided == retained_rule(state),
{
    (RetentionState { phase: RetentionPhase::Ended, ..state }, RetentionAction::Finish)
}

/// Takes up an event: where retention stands then, and what it does next. The copy
/// is kept only once the original is gone for good.
pub open spec fn retain_rollout_rule(
    state: RetentionState,
    event: RetentionEvent,
) -> (RetentionState, RetentionAction) {
    match state.phase {
        RetentionPhase::Binding => match event {
            RetentionEvent::Answered { succeeded: true } => retaining_rule(
                state,
                RetentionPhase::Opening,
                RetentionAction::OpenRollout,
            ),
            _ => refused_rule(state, CodexRolloutRejectionReason::StateBoundaryUnavailable),
        },
        RetentionPhase::Opening => match event {
            RetentionEvent::Judged { refusal: None } => retaining_rule(
                state,
                RetentionPhase::Identifying,
                RetentionAction::ValidateIdentity,
            ),
            RetentionEvent::Judged { refusal: Some(reason) } => if reason
                == CodexRolloutRejectionReason::RolloutMissing && !state.materialized {
                retained_rule(state)
            } else {
                refused_rule(state, reason)
            },
            _ => refused_rule(state, CodexRolloutRejectionReason::PathReplaced),
        },
        RetentionPhase::Identifying => match event {
            RetentionEvent::Judged { refusal: None } => retaining_rule(
                state,
                RetentionPhase::Copying,
                RetentionAction::CopyRollout,
            ),
            RetentionEvent::Judged { refusal: Some(reason) } => refused_rule(state, reason),
            _ => refused_rule(state, CodexRolloutRejectionReason::ThreadIdentityMismatch),
        },
        RetentionPhase::Copying => match event {
            RetentionEvent::Copied { complete } => retaining_rule(
                state,
                RetentionPhase::Verifying { complete },
                RetentionAction::VerifyPath,
            ),
            _ => refused_rule(state, CodexRolloutRejectionReason::RetainedStorageUnavailable),
        },
        RetentionPhase::Verifying { complete } => match event {
            RetentionEvent::Judged { refusal: None } => retaining_rule(
                state,
                RetentionPhase::Removing { complete },
                RetentionAction::RemoveSource,
            ),
            RetentionEvent::Judged { refusal: Some(reason) } => refused_rule(state, reason),
            _ => refused_rule(state, CodexRolloutRejectionReason::PathReplaced),
        },
        RetentionPhase::Removing { complete } => match event {
            RetentionEvent::Answered { succeeded: true } => retaining_rule(
                state,
                RetentionPhase::Syncing { complete },
                RetentionAction::SyncParent,
            ),
            _ => refused_rule(state, CodexRolloutRejectionReason::AmbientRemovalFailed),
        },
        RetentionPhase::Syncing { complete } => match event {
            RetentionEvent::Answered { succeeded: true } => retaining_rule(
                state,
                RetentionPhase::Keeping { complete },
                RetentionAction::KeepCopy,
            ),
            _ => refused_rule(state, CodexRolloutRejectionReason::AmbientRemovalFailed),
        },
        RetentionPhase::Keeping { complete } => if complete {
            retained_rule(state)
        } else {
            refused_rule(state, CodexRolloutRejectionReason::RolloutTooLarge)
        },
        RetentionPhase::Ended => (state, RetentionAction::Rest),
    }
}

/// Takes up an event: where retention stands then, and what it does next. The copy
/// is kept only once the original is gone for good.
pub fn retain_rollout(
    state: RetentionState,
    event: RetentionEvent,
) -> (decided: (RetentionState, RetentionAction))
    ensures
        decided == retain_rollout_rule(state, event),
{
    match state.phase {
        RetentionPhase::Binding => match event {
            RetentionEvent::Answered { succeeded: true } => retaining(
                state,
                RetentionPhase::Opening,
                RetentionAction::OpenRollout,
            ),
            _ => refused(state, CodexRolloutRejectionReason::StateBoundaryUnavailable),
        },
        RetentionPhase::Opening => match event {
            RetentionEvent::Judged { refusal: None } => retaining(
                state,
                RetentionPhase::Identifying,
                RetentionAction::ValidateIdentity,
            ),
            RetentionEvent::Judged { refusal: Some(reason) } => if reason
                == CodexRolloutRejectionReason::RolloutMissing && !state.materialized {
                retained(state)
            } else {
                refused(state, reason)
            },
            _ => refused(state, CodexRolloutRejectionReason::PathReplaced),
        },
        RetentionPhase::Identifying => match event {
            RetentionEvent::Judged { refusal: None } => retaining(
                state,
                RetentionPhase::Copying,
                RetentionAction::CopyRollout,
            ),
            RetentionEvent::Judged { refusal: Some(reason) } => refused(state, reason),
            _ => refused(state, CodexRolloutRejectionReason::ThreadIdentityMismatch),
        },
        RetentionPhase::Copying => match event {
            RetentionEvent::Copied { complete } => retaining(
                state,
                RetentionPhase::Verifying { complete },
                RetentionAction::VerifyPath,
            ),
            _ => refused(state, CodexRolloutRejectionReason::RetainedStorageUnavailable),
        },
        RetentionPhase::Verifying { complete } => match event {
            RetentionEvent::Judged { refusal: None } => retaining(
                state,
                RetentionPhase::Removing { complete },
                RetentionAction::RemoveSource,
            ),
            RetentionEvent::Judged { refusal: Some(reason) } => refused(state, reason),
            _ => refused(state, CodexRolloutRejectionReason::PathReplaced),
        },
        RetentionPhase::Removing { complete } => match event {
            RetentionEvent::Answered { succeeded: true } => retaining(
                state,
                RetentionPhase::Syncing { complete },
                RetentionAction::SyncParent,
            ),
            _ => refused(state, CodexRolloutRejectionReason::AmbientRemovalFailed),
        },
        RetentionPhase::Syncing { complete } => match event {
            RetentionEvent::Answered { succeeded: true } => retaining(
                state,
                RetentionPhase::Keeping { complete },
                RetentionAction::KeepCopy,
            ),
            _ => refused(state, CodexRolloutRejectionReason::AmbientRemovalFailed),
        },
        RetentionPhase::Keeping { complete } => if complete {
            retained(state)
        } else {
            refused(state, CodexRolloutRejectionReason::RolloutTooLarge)
        },
        RetentionPhase::Ended => (state, RetentionAction::Rest),
    }
}

/// Where retention stands after some events, and what it does then.
pub open spec fn retention_after(materialized: bool, events: Seq<RetentionEvent>) -> (
    RetentionState,
    RetentionAction,
)
    decreases events.len(),
{
    if events.len() == 0 {
        (
            RetentionState { phase: RetentionPhase::Binding, materialized },
            RetentionAction::VerifyBinding,
        )
    } else {
        retain_rollout_rule(
            retention_after(materialized, events.drop_last()).0,
            events.last(),
        )
    }
}

/// What retention does after the first `count` events.
pub open spec fn retention_action(
    materialized: bool,
    events: Seq<RetentionEvent>,
    count: int,
) -> RetentionAction {
    retention_after(materialized, events.take(count)).1
}

/// Where retention stands tells what it is doing.
proof fn lemma_retention_phase(materialized: bool, events: Seq<RetentionEvent>, count: int)
    requires
        0 <= count <= events.len(),
    ensures
        ({
            let (state, action) = retention_after(materialized, events.take(count));
            &&& state.materialized == materialized
            &&& state.phase == RetentionPhase::Opening ==> action == RetentionAction::OpenRollout
            &&& state.phase == RetentionPhase::Identifying ==> action
                == RetentionAction::ValidateIdentity
            &&& state.phase == RetentionPhase::Copying ==> action == RetentionAction::CopyRollout
            &&& state.phase is Verifying ==> action == RetentionAction::VerifyPath
            &&& state.phase is Removing ==> action == RetentionAction::RemoveSource
            &&& state.phase is Syncing ==> action == RetentionAction::SyncParent
            &&& state.phase is Keeping ==> action == RetentionAction::KeepCopy
            &&& count > 0 ==> (state, action) == retain_rollout_rule(
                retention_after(materialized, events.take(count - 1)).0,
                events[count - 1],
            )
            &&& count == 0 ==> state.phase == RetentionPhase::Binding
        }),
    decreases count,
{
    if count > 0 {
        lemma_retention_phase(materialized, events, count - 1);
        assert(events.take(count).drop_last() =~= events.take(count - 1));
    } else {
        assert(events.take(0).len() == 0);
    }
}

/// A copy is kept only once the original was removed and its removal made to
/// last; the original is removed only once it was copied and its path found to
/// lead to it still; and only the rollout of the thread is copied.
pub proof fn law_copies_are_kept_last(
    materialized: bool,
    events: Seq<RetentionEvent>,
    count: int,
)
    requires
        0 <= count <= events.len(),
    ensures
        retention_action(materialized, events, count) == RetentionAction::KeepCopy ==> {
            &&& count >= 3
            &&& retention_action(materialized, events, count - 1) == RetentionAction::SyncParent
            &&& events[count - 1] == (RetentionEvent::Answered { succeeded: true })
            &&& retention_action(materialized, events, count - 2) == RetentionAction::RemoveSource
            &&& events[count - 2] == (RetentionEvent::Answered { succeeded: true })
        },
        retention_action(materialized, events, count) == RetentionAction::RemoveSource ==> {
            &&& count >= 3
            &&& retention_action(materialized, events, count - 1) == RetentionAction::VerifyPath
            &&& events[count - 1] == (RetentionEvent::Judged { refusal: None })
            &&& retention_action(materialized, events, count - 2) == RetentionAction::CopyRollout
            &&& events[count - 2] is Copied
        },
        retention_action(materialized, events, count) == RetentionAction::CopyRollout ==> {
            &&& count >= 1
            &&& retention_action(materialized, events, count - 1)
                == RetentionAction::ValidateIdentity
            &&& events[count - 1] == (RetentionEvent::Judged { refusal: None })
        },
{
    lemma_retention_phase(materialized, events, count);
    if count >= 1 {
        lemma_retention_phase(materialized, events, count - 1);
    }
    if count >= 2 {
        lemma_retention_phase(materialized, events, count - 2);
    }
    if count >= 3 {
        lemma_retention_phase(materialized, events, count - 3);
    }
}

/// Retention ends with success only where a whole copy was kept, or where no
/// rollout was written and none is there.
pub proof fn law_success_needs_a_whole_copy(state: RetentionState, event: RetentionEvent)
    ensures
        retain_rollout_rule(state, event).1 == RetentionAction::Finish <==> state.phase == (
        RetentionPhase::Keeping { complete: true }) || (state.phase == RetentionPhase::Opening
            && !state.materialized && event == (RetentionEvent::Judged {
            refusal: Some(CodexRolloutRejectionReason::RolloutMissing),
        })),
{
}

} // verus!
