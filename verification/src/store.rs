//! The decisions of a save: whether a file may be overwritten, whether the
//! file changed since the profile was read, and what to do then. The
//! caller asks the questions and reads the file; every answer is handed to
//! `save_step`, which says what to do next.

use vstd::prelude::*;
use vstd::utf8::{decode_utf8, valid_utf8};
use crate::errors::{Error, ErrorView};
use crate::item::ItemView;
use crate::profile::Profile;

verus! {

/// `String::from_utf8` turns bytes that are valid UTF-8 into the text that
/// they encode, and fails on any other bytes. The error is dropped.
#[verifier::external_body]
fn text_from_utf8(bytes: Vec<u8>) -> (r: Option<String>)
    ensures
        r is Some <==> valid_utf8(bytes@),
        r is Some ==> r->0@ == decode_utf8(bytes@),
{
    match String::from_utf8(bytes) {
        Ok(text) => Some(text),
        Err(_) => None,
    }
}

/// The text of a profile file, from its bytes after decryption. Fails with
/// `InvalidEncoding` where the bytes are no UTF-8.
pub fn profile_text(bytes: Vec<u8>) -> (r: Result<String, Error>)
    ensures
        match r {
            Ok(text) => valid_utf8(bytes@) && text@ == decode_utf8(bytes@),
            Err(e) => !valid_utf8(bytes@) && e@ == ErrorView::InvalidEncoding,
        },
{
    match text_from_utf8(bytes) {
        Some(text) => Ok(text),
        None => Err(Error::InvalidEncoding),
    }
}

/// Whether the user must agree before the folder of the profiles is made.
pub fn creation_needs_consent(folder_exists: bool, yes: bool) -> (r: bool)
    ensures
        r == (!folder_exists && !yes),
{
    !folder_exists && !yes
}

/// Fails with `NotAFile` where the path of a profile is present and is no
/// regular file, and with `NotFound` where nothing is at the path; both
/// hold the path.
pub fn locate(path: &str, regular: bool, present: bool) -> (r: Result<(), Error>)
    ensures
        r is Ok <==> regular,
        r is Err ==> r->Err_0@ == if present {
            ErrorView::NotAFile(path@)
        } else {
            ErrorView::NotFound(path@)
        },
{
    if regular {
        Ok(())
    } else if present {
        Err(Error::NotAFile(path.to_owned()))
    } else {
        Err(Error::NotFound(path.to_owned()))
    }
}

impl Profile {
    /// A new profile without notes, with the fingerprint 0. `consent` is
    /// the answer of the user where `creation_needs_consent` asked for one.
    /// Fails with `UserAborted` where the folder of the profiles is missing
    /// and the user did not agree to make it; else the caller makes the
    /// folder where it is missing.
    pub fn from_scratch(encrypted: bool, folder_exists: bool, yes: bool, consent: bool) -> (r:
        Result<(Profile, u64), Error>)
        ensures
            r is Ok <==> folder_exists || yes || consent,
            r is Ok ==> r->Ok_0.0@.encrypted == encrypted && r->Ok_0.0@.notes == Seq::<
                ItemView,
            >::empty() && r->Ok_0.0.wf() && r->Ok_0.1 == 0,
            r is Err ==> r->Err_0@ == ErrorView::UserAborted,
    {
        if !folder_exists && !yes && !consent {
            Err(Error::UserAborted)
        } else {
            Ok(Profile::new(encrypted))
        }
    }
}

/// What is known of a save before it starts.
#[derive(Clone, Copy, Debug, PartialEq, Eq, Structural)]
pub struct SaveRequest {
    /// The profile is saved under a new name.
    pub new_profile: bool,
    /// Nobody needs to be asked: every question counts as answered with
    /// yes.
    pub yes: bool,
    /// The fingerprint of the file when the profile was read from it; 0
    /// where no file was read.
    pub fingerprint: u64,
}

/// How far a save has come.
#[derive(Clone, Copy, Debug, PartialEq, Eq, Structural)]
pub enum SaveState {
    Start,
    AskedOverwrite,
    ReadingFingerprint,
    AskedMerge,
    Finished,
}

/// What the caller found out.
#[derive(Clone, Copy, Debug, PartialEq, Eq, Structural)]
pub enum SaveEvent {
    /// The save begins; it is known whether the file exists.
    Begin { target_exists: bool },
    /// The user answered the question that was asked.
    Answer(bool),
    /// The fingerprint of the file as it is now.
    Fingerprint(u64),
}

/// What the caller does next.
#[derive(Clone, Copy, Debug, PartialEq, Eq, Structural)]
pub enum SaveAction {
    /// Ask whether the existing file may be overwritten.
    AskOverwrite,
    /// Read the file and take its fingerprint.
    ReadFingerprint,
    /// Ask whether the changes on disk are to be merged.
    AskMerge,
    /// Write the profile to the file.
    Write,
    /// Drop the profile, read the file anew, carry out the command on what
    /// was read, and save that with the request of `replay_request`.
    Replay,
    /// Give up with `UserAborted`; nothing is written.
    Abort,
}

/// The step after the question of overwriting is settled: a profile that
/// was read from a file is compared with the file, any other is written.
pub open spec fn after_overwrite(request: SaveRequest) -> (SaveState, SaveAction) {
    if request.fingerprint > 0 {
        (SaveState::ReadingFingerprint, SaveAction::ReadFingerprint)
    } else {
        (SaveState::Finished, SaveAction::Write)
    }
}

/// The state after an event, and what to do then. A new profile whose file
/// exists needs consent to overwrite it. A file whose fingerprint is not
/// the one of the request changed since it was read: the command is then
/// replayed, after consent, on the file as it is. An event that the state
/// does not wait for ends the save.
pub open spec fn spec_save_step(request: SaveRequest, state: SaveState, event: SaveEvent) -> (
    SaveState,
    SaveAction,
) {
    match (state, event) {
        (SaveState::Start, SaveEvent::Begin { target_exists }) => {
            if request.new_profile && target_exists && !request.yes {
                (SaveState::AskedOverwrite, SaveAction::AskOverwrite)
            } else {
                after_overwrite(request)
            }
        },
        (SaveState::AskedOverwrite, SaveEvent::Answer(yes)) => {
            if yes {
                after_overwrite(request)
            } else {
                (SaveState::Finished, SaveAction::Abort)
            }
        },
        (SaveState::ReadingFingerprint, SaveEvent::Fingerprint(found)) => {
            if found == request.fingerprint {
                (SaveState::Finished, SaveAction::Write)
            } else if request.yes {
                (SaveState::Finished, SaveAction::Replay)
            } else {
                (SaveState::AskedMerge, SaveAction::AskMerge)
            }
        },
        (SaveState::AskedMerge, SaveEvent::Answer(yes)) => {
            if yes {
                (SaveState::Finished, SaveAction::Replay)
            } else {
                (SaveState::Finished, SaveAction::Abort)
            }
        },
        _ => (SaveState::Finished, SaveAction::Abort),
    }
}

/// The state in which a save is after the events `events`, from the start.
pub open spec fn state_after(request: SaveRequest, events: Seq<SaveEvent>) -> SaveState
    decreases events.len(),
{
    if events.len() == 0 {
        SaveState::Start
    } else {
        spec_save_step(request, state_after(request, events.drop_last()), events.last()).0
    }
}

/// What a save asks for after the events `events`, the last of which it
/// has just learned.
pub open spec fn action_after(request: SaveRequest, events: Seq<SaveEvent>) -> SaveAction
    recommends
        events.len() > 0,
{
    spec_save_step(request, state_after(request, events.drop_last()), events.last()).1
}

/// The request with which a replayed command is saved: without a
/// fingerprint, so that the save is not compared with the file again.
pub open spec fn spec_replay_request(request: SaveRequest) -> SaveRequest {
    SaveRequest { fingerprint: 0, ..request }
}

/// The state after an event, and what to do then.
pub fn save_step(request: SaveRequest, state: SaveState, event: SaveEvent) -> (r: (
    SaveState,
    SaveAction,
))
    ensures
        r == spec_save_step(request, state, event),
{
    match (state, event) {
        (SaveState::Start, SaveEvent::Begin { target_exists }) => {
            if request.new_profile && target_exists && !request.yes {
                (SaveState::AskedOverwrite, SaveAction::AskOverwrite)
            } else if request.fingerprint > 0 {
                (SaveState::ReadingFingerprint, SaveAction::ReadFingerprint)
            } else {
                (SaveState::Finished, SaveAction::Write)
            }
        },
        (SaveState::AskedOverwrite, SaveEvent::Answer(yes)) => {
            if !yes {
                (SaveState::Finished, SaveAction::Abort)
            } else if request.fingerprint > 0 {
                (SaveState::ReadingFingerprint, SaveAction::ReadFingerprint)
            } else {
                (SaveState::Finished, SaveAction::Write)
            }
        },
        (SaveState::ReadingFingerprint, SaveEvent::Fingerprint(found)) => {
            if found == request.fingerprint {
                (SaveState::Finished, SaveAction::Write)
            } else if request.yes {
                (SaveState::Finished, SaveAction::Replay)
            } else {
                (SaveState::AskedMerge, SaveAction::AskMerge)
            }
        },
        (SaveState::AskedMerge, SaveEvent::Answer(yes)) => {
            if yes {
                (SaveState::Finished, SaveAction::Replay)
            } else {
                (SaveState::Finished, SaveAction::Abort)
            }
        },
        _ => (SaveState::Finished, SaveAction::Abort),
    }
}

/// The request with which a replayed command is saved.
pub fn replay_request(request: SaveRequest) -> (r: SaveRequest)
    ensures
        r == spec_replay_request(request),
{
    SaveRequest { new_profile: request.new_profile, yes: request.yes, fingerprint: 0 }
}

/// A save without a fingerprint never reaches the states in which the file
/// is compared or a merge is asked for.
pub proof fn lemma_no_fingerprint_states(request: SaveRequest, events: Seq<SaveEvent>)
    requires
        request.fingerprint == 0,
    ensures
        state_after(request, events) != SaveState::ReadingFingerprint,
        state_after(request, events) != SaveState::AskedMerge,
    decreases events.len(),
{
    if events.len() > 0 {
        lemma_no_fingerprint_states(request, events.drop_last());
    }
}

/// A profile that was not read from a file is never compared with the
/// file: whatever happens, its save reads no fingerprint, asks for no merge
/// and replays nothing.
pub proof fn lemma_no_fingerprint_no_conflict(request: SaveRequest, events: Seq<SaveEvent>)
    requires
        request.fingerprint == 0,
        events.len() > 0,
    ensures
        action_after(request, events) != SaveAction::ReadFingerprint,
        action_after(request, events) != SaveAction::AskMerge,
        action_after(request, events) != SaveAction::Replay,
{
    lemma_no_fingerprint_states(request, events.drop_last());
}

/// The save of a replayed command replays nothing: a replay goes one level
/// deep and no deeper.
pub proof fn lemma_replay_is_not_replayed(request: SaveRequest, events: Seq<SaveEvent>)
    requires
        events.len() > 0,
    ensures
        action_after(spec_replay_request(request), events) != SaveAction::Replay,
{
    lemma_no_fingerprint_no_conflict(spec_replay_request(request), events);
}

/// A file that changed since it was read is never overwritten: once the
/// fingerprint that was found differs from the one of the request, the save
/// does not write, whatever else happens.
pub proof fn lemma_changed_file_is_not_overwritten(
    request: SaveRequest,
    state: SaveState,
    found: u64,
)
    requires
        state == SaveState::ReadingFingerprint,
        found != request.fingerprint,
    ensures
        spec_save_step(request, state, SaveEvent::Fingerprint(found)).1 != SaveAction::Write,
        request.yes ==> spec_save_step(request, state, SaveEvent::Fingerprint(found)).1
            == SaveAction::Replay,
        forall|answer: bool|
            (#[trigger] spec_save_step(
                request,
                spec_save_step(request, state, SaveEvent::Fingerprint(found)).0,
                SaveEvent::Answer(answer),
            )).1 != SaveAction::Write,
{
}

} // verus!
