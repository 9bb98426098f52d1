//! The stored form of a profile: what a profile file holds once its text
//! was read, and what is handed over to be written as text. A status is
//! stored as a word.

use vstd::prelude::*;
use crate::errors::{Error, ErrorView};
use crate::item::{Item, ItemView, Status};
use crate::profile::{ids_increase, Profile, ProfileView};
use crate::text::str_eq;
use crate::utils::{profile_fingerprint, spec_fingerprint};

verus! {

/// A note as it is stored.
#[derive(Clone, Debug, PartialEq, Eq)]
pub struct StoredItem {
    pub id: usize,
    pub title: String,
    pub status: String,
    pub body: String,
    pub last_touched: String,
}

/// A profile as it is stored.
#[derive(Clone, Debug, PartialEq, Eq)]
pub struct StoredProfile {
    pub encrypted: bool,
    pub notes: Vec<StoredItem>,
}

/// A stored note with each text taken as the sequence of its characters.
pub struct StoredItemView {
    pub id: usize,
    pub title: Seq<char>,
    pub status: Seq<char>,
    pub body: Seq<char>,
    pub last_touched: Seq<char>,
}

/// A stored profile with each note taken by its view.
pub struct StoredProfileView {
    pub encrypted: bool,
    pub notes: Seq<StoredItemView>,
}

impl View for StoredItem {
    type V = StoredItemView;

    open spec fn view(&self) -> StoredItemView {
        StoredItemView {
            id: self.id,
            title: self.title@,
            status: self.status@,
            body: self.body@,
            last_touched: self.last_touched@,
        }
    }
}

impl View for StoredProfile {
    type V = StoredProfileView;

    open spec fn view(&self) -> StoredProfileView {
        StoredProfileView {
            encrypted: self.encrypted,
            notes: Seq::new(self.notes@.len(), |i: int| self.notes@[i]@),
        }
    }
}

/// The status that a stored word stands for: the empty word for `Blank`,
/// else the name of the status. Other words stand for no status.
pub open spec fn status_of_label(label: Seq<char>) -> Option<Status> {
    if label == Status::Blank.label() {
        Some(Status::Blank)
    } else if label == Status::Started.label() {
        Some(Status::Started)
    } else if label == Status::Urgent.label() {
        Some(Status::Urgent)
    } else {
        None
    }
}

/// A note in its stored form.
pub open spec fn stored_note(note: ItemView) -> StoredItemView {
    StoredItemView {
        id: note.id,
        title: note.title,
        status: note.status.label(),
        body: note.body,
        last_touched: note.last_touched,
    }
}

/// The note that a stored note stands for, where its status is a status.
pub open spec fn loaded_note(stored: StoredItemView) -> ItemView {
    ItemView {
        id: stored.id,
        title: stored.title,
        status: status_of_label(stored.status)->0,
        body: stored.body,
        last_touched: stored.last_touched,
    }
}

/// A profile in its stored form.
pub open spec fn spec_to_stored(profile: ProfileView) -> StoredProfileView {
    StoredProfileView {
        encrypted: profile.encrypted,
        notes: Seq::new(profile.notes.len(), |i: int| stored_note(profile.notes[i])),
    }
}

/// The profile that a stored profile stands for.
pub open spec fn spec_from_stored(stored: StoredProfileView) -> ProfileView {
    ProfileView {
        encrypted: stored.encrypted,
        notes: Seq::new(stored.notes.len(), |i: int| loaded_note(stored.notes[i])),
    }
}

/// Whether a stored profile stands for a profile: every status is a
/// status, and the ids increase.
pub open spec fn can_be_loaded(stored: StoredProfileView) -> bool {
    &&& forall|i: int|
        0 <= i < stored.notes.len() ==> status_of_label(#[trigger] stored.notes[i].status)
            is Some
    &&& ids_increase(spec_from_stored(stored).notes)
}

/// The three stored words differ, so each stands for its own status.
pub proof fn lemma_label_round_trip(status: Status)
    ensures
        status_of_label(status.label()) == Some(status),
{
    reveal_strlit("");
    reveal_strlit("Started");
    reveal_strlit("Urgent");
    assert(""@.len() == 0);
    assert("Started"@.len() == 7);
    assert("Urgent"@.len() == 6);
}

/// What was stored is what is loaded: a profile whose ids increase is
/// loaded from its stored form as it was, notes and encryption flag alike.
pub proof fn lemma_store_round_trip(profile: ProfileView)
    requires
        ids_increase(profile.notes),
    ensures
        can_be_loaded(spec_to_stored(profile)),
        spec_from_stored(spec_to_stored(profile)) == profile,
{
    let stored = spec_to_stored(profile);
    assert forall|i: int| 0 <= i < stored.notes.len() implies status_of_label(
        #[trigger] stored.notes[i].status,
    ) is Some && loaded_note(stored.notes[i]) == profile.notes[i] by {
        lemma_label_round_trip(profile.notes[i].status);
    }
    assert(spec_from_stored(stored).notes =~= profile.notes);
}

impl Status {
    /// The status that a stored word stands for.
    pub fn from_label(label: &str) -> (r: Option<Status>)
        ensures
            r == status_of_label(label@),
    {
        if str_eq(label, "") {
            Some(Status::Blank)
        } else if str_eq(label, "Started") {
            Some(Status::Started)
        } else if str_eq(label, "Urgent") {
            Some(Status::Urgent)
        } else {
            None
        }
    }
}

impl Profile {
    /// The stored form of the profile.
    pub fn to_stored(&self) -> (r: StoredProfile)
        ensures
            r@ == spec_to_stored(self@),
    {
        let mut notes: Vec<StoredItem> = Vec::new();
        let mut i: usize = 0;
        while i < self.notes.len()
            invariant
                i <= self.notes.len(),
                notes.len() == i,
                forall|k: int| 0 <= k < i ==> #[trigger] notes[k]@ == stored_note(self.notes[k]@),
            decreases self.notes.len() - i,
        {
            let note = &self.notes[i];
            notes.push(
                StoredItem {
                    id: note.id,
                    title: note.title.clone(),
                    status: note.status.to_string(),
                    body: note.body.clone(),
                    last_touched: note.last_touched.clone(),
                },
            );
            i += 1;
        }
        let stored = StoredProfile { encrypted: self.encrypted, notes };
        assert(stored@.notes =~= spec_to_stored(self@).notes);
        stored
    }

    /// The profile that a stored profile stands for. Fails with
    /// `MalformedProfile`, which holds `path`, where a status is no status
    /// or the ids do not increase.
    pub fn from_stored(stored: &StoredProfile, path: &str) -> (r: Result<Profile, Error>)
        ensures
            r is Ok <==> can_be_loaded(stored@),
            r is Ok ==> r->Ok_0@ == spec_from_stored(stored@) && r->Ok_0.wf(),
            r is Err ==> r->Err_0@ == ErrorView::MalformedProfile(path@),
    {
        let mut notes: Vec<Item> = Vec::new();
        let mut i: usize = 0;
        while i < stored.notes.len()
            invariant
                i <= stored.notes.len(),
                notes.len() == i,
                forall|k: int|
                    0 <= k < i ==> status_of_label(#[trigger] stored@.notes[k].status) is Some,
                forall|k: int| 0 <= k < i ==> #[trigger] notes[k]@ == loaded_note(stored.notes[k]@),
            decreases stored.notes.len() - i,
        {
            let note = &stored.notes[i];
            proof {
                assert(stored@.notes[i as int] == note@);
            }
            let status = match Status::from_label(note.status.as_str()) {
                Some(status) => status,
                None => {
                    assert(status_of_label(stored@.notes[i as int].status) is None);
                    return Err(Error::MalformedProfile(path.to_owned()));
                },
            };
            notes.push(
                Item {
                    id: note.id,
                    title: note.title.clone(),
                    status,
                    body: note.body.clone(),
                    last_touched: note.last_touched.clone(),
                },
            );
            i += 1;
        }
        let profile = Profile { encrypted: stored.encrypted, notes };
        proof {
            assert forall|k: int| 0 <= k < profile@.notes.len() implies profile@.notes[k]
                == spec_from_stored(stored@).notes[k] by {
                assert(profile@.notes[k] == profile.notes[k]@);
                assert(stored@.notes[k] == stored.notes[k]@);
            }
            assert(profile@.notes =~= spec_from_stored(stored@).notes);
        }
        if profile.is_well_formed() {
            Ok(profile)
        } else {
            Err(Error::MalformedProfile(path.to_owned()))
        }
    }

    /// The profile that the file at `path` holds, with the fingerprint of
    /// the file: `stored` is what was read from the text of the file, `file`
    /// are the bytes of the file. Fails as `from_stored` does.
    pub fn from_existing_profile(stored: &StoredProfile, path: &str, file: &[u8]) -> (r: Result<
        (Profile, u64),
        Error,
    >)
        ensures
            r is Ok <==> can_be_loaded(stored@),
            r is Ok ==> r->Ok_0.0@ == spec_from_stored(stored@) && r->Ok_0.0.wf() && r->Ok_0.1
                == spec_fingerprint(file@),
            r is Err ==> r->Err_0@ == ErrorView::MalformedProfile(path@),
    {
        match Profile::from_stored(stored, path) {
            Ok(profile) => {
                let fingerprint = profile_fingerprint(file);
                Ok((profile, fingerprint))
            },
            Err(e) => Err(e),
        }
    }
}

} // verus!
