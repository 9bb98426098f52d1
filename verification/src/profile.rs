//! A profile: a list of notes, and the operations that change it.

use vstd::prelude::*;
use vstd::string::StrSliceExecFns;
use crate::errors::{Error, ErrorView};
use crate::item::{Item, ItemView, Status, views};
use crate::text::{str_eq, strip_newlines, without_newlines};
use crate::{strings, BoolFlags};

verus! {

/// A named set of notes, as one file holds it. The notes stand in the order
/// in which they were added.
#[derive(Clone, Debug)]
pub struct Profile {
    pub encrypted: bool,
    pub notes: Vec<Item>,
}

/// A profile with each note taken by its view.
pub struct ProfileView {
    pub encrypted: bool,
    pub notes: Seq<ItemView>,
}

impl View for Profile {
    type V = ProfileView;

    open spec fn view(&self) -> ProfileView {
        ProfileView { encrypted: self.encrypted, notes: views(self.notes@) }
    }
}

/// Where the body of a note comes from.
#[derive(Clone, Copy, Debug, PartialEq, Eq, Structural)]
pub enum BodySource {
    /// What was piped into the program.
    Stdin,
    /// What the user wrote in an editor.
    Editor,
    /// The first body given on the command line.
    Literal,
    /// Nowhere: a new note gets an empty body, an old one keeps its own.
    Nothing,
}

/// Every note has a larger id than the notes before it. This is the
/// invariant of a profile: it implies that no two notes share an id.
pub open spec fn ids_increase(notes: Seq<ItemView>) -> bool {
    forall|i: int, j: int| 0 <= i < j < notes.len() ==> notes[i].id < notes[j].id
}

/// Some note has the id `id`.
pub open spec fn has_id(notes: Seq<ItemView>, id: usize) -> bool {
    exists|i: int| 0 <= i < notes.len() && #[trigger] notes[i].id == id
}

/// The note at `i` is the first with the id `id`.
pub open spec fn is_first_with_id(notes: Seq<ItemView>, id: usize, i: int) -> bool {
    &&& 0 <= i < notes.len()
    &&& notes[i].id == id
    &&& forall|k: int| 0 <= k < i ==> notes[k].id != id
}

/// The place of the first note with the id `id`; meaningful where there is
/// one.
pub open spec fn first_with_id(notes: Seq<ItemView>, id: usize) -> int {
    choose|i: int| is_first_with_id(notes, id, i)
}

/// `m` is the largest id among the notes.
pub open spec fn is_max_id(notes: Seq<ItemView>, m: usize) -> bool {
    has_id(notes, m) && forall|i: int| 0 <= i < notes.len() ==> notes[i].id <= m
}

/// The id that the next note gets: one more than that of the last note, and
/// 1 in a profile without notes.
pub open spec fn next_id(notes: Seq<ItemView>) -> int {
    if notes.len() == 0 {
        1
    } else {
        notes.last().id + 1
    }
}

/// The body of a new note: what was captured from the pipe or the editor,
/// or the first body of the command line, or nothing.
pub open spec fn new_body(
    source: BodySource,
    literal: Seq<Seq<char>>,
    captured: Seq<char>,
) -> Seq<char> {
    match source {
        BodySource::Stdin => captured,
        BodySource::Editor => captured,
        BodySource::Literal => if literal.len() > 0 {
            literal[0]
        } else {
            Seq::empty()
        },
        BodySource::Nothing => Seq::empty(),
    }
}

/// The note that `add_note` appends.
pub open spec fn added_note(
    notes: Seq<ItemView>,
    title: Seq<char>,
    literal: Seq<Seq<char>>,
    status: Option<Status>,
    source: BodySource,
    captured: Seq<char>,
    now: Seq<char>,
) -> ItemView {
    ItemView {
        id: next_id(notes) as usize,
        title: without_newlines(title),
        status: match status {
            Some(s) => s,
            None => Status::Blank,
        },
        body: new_body(source, literal, captured),
        last_touched: now,
    }
}

/// The notes without the first one that has the id `id`; all of them where
/// none has it.
pub open spec fn without_id(notes: Seq<ItemView>, id: usize) -> Seq<ItemView> {
    if has_id(notes, id) {
        notes.remove(first_with_id(notes, id))
    } else {
        notes
    }
}

/// The notes after the ids of `ids` were deleted one after the other.
pub open spec fn without_ids(notes: Seq<ItemView>, ids: Seq<usize>) -> Seq<ItemView>
    decreases ids.len(),
{
    if ids.len() == 0 {
        notes
    } else {
        without_id(without_ids(notes, ids.drop_last()), ids.last())
    }
}

/// Whether the deletion of `ids[k]` finds a note: whether a note has that
/// id once the ids before it were deleted.
pub open spec fn deletion_finds(notes: Seq<ItemView>, ids: Seq<usize>, k: int) -> bool {
    has_id(without_ids(notes, ids.take(k)), ids[k])
}

/// Where the body of a new note comes from. A pipe goes before everything;
/// without the editor flag the body is the one of the command line; the
/// editor is used only at a terminal.
pub open spec fn spec_add_body_source(
    use_stdin: bool,
    use_editor: bool,
    interactive: bool,
) -> BodySource {
    if use_stdin {
        BodySource::Stdin
    } else if !use_editor {
        BodySource::Literal
    } else if interactive {
        BodySource::Editor
    } else {
        BodySource::Nothing
    }
}

/// Whether the title given to an edit is the sign for "take the body from
/// the pipe".
pub open spec fn is_pipe_sign(title: Seq<char>) -> bool {
    title == seq!['-']
}

/// Where the new body of an edited note comes from. The title `-` asks for
/// the pipe, whatever else was given. `Nothing` leaves the body as it is.
pub open spec fn spec_edit_body_source(
    title: Seq<char>,
    literal: Seq<Seq<char>>,
    use_stdin: bool,
    use_editor: bool,
    interactive: bool,
) -> BodySource {
    if is_pipe_sign(title) || use_stdin {
        BodySource::Stdin
    } else if use_editor {
        if interactive {
            BodySource::Editor
        } else {
            BodySource::Nothing
        }
    } else if literal.len() > 0 {
        BodySource::Literal
    } else {
        BodySource::Nothing
    }
}

/// Whether the user must agree before the editor opens: the body of a note
/// of an encrypted profile would be written, decrypted, to a temporary file.
pub open spec fn spec_editor_needs_consent(source: BodySource, encrypted: bool, yes: bool) -> bool {
    source == BodySource::Editor && encrypted && !yes
}

/// A note after an edit. The title changes only to a title that is not
/// empty and not the sign for the pipe; the status is always set, to
/// `Blank` where none is given; the body changes only where a source is
/// given; the time of last change is always set.
pub open spec fn edited_note(
    note: ItemView,
    title: Seq<char>,
    literal: Seq<Seq<char>>,
    status: Option<Status>,
    source: BodySource,
    captured: Seq<char>,
    now: Seq<char>,
) -> ItemView {
    ItemView {
        id: note.id,
        title: if title.len() > 0 && !is_pipe_sign(title) {
            without_newlines(title)
        } else {
            note.title
        },
        status: match status {
            Some(s) => s,
            None => Status::Blank,
        },
        body: if source == BodySource::Nothing {
            note.body
        } else {
            new_body(source, literal, captured)
        },
        last_touched: now,
    }
}

/// The copy of `note` that a transfer appends to the notes `dest`: title,
/// status and body are those of the note, the id is the next one of `dest`.
pub open spec fn transferred_note(dest: Seq<ItemView>, note: ItemView, now: Seq<char>) -> ItemView {
    ItemView {
        id: next_id(dest) as usize,
        title: note.title,
        status: note.status,
        body: note.body,
        last_touched: now,
    }
}

/// In a profile whose ids increase, the last note has the largest id.
pub proof fn lemma_last_id_is_max(notes: Seq<ItemView>)
    requires
        ids_increase(notes),
        notes.len() > 0,
    ensures
        is_max_id(notes, notes.last().id),
{
    assert(notes[notes.len() - 1].id == notes.last().id);
}

/// After a note was added, the new note is the last one, the count is one
/// more, and the id of the new note is 1 in a profile that was empty, else
/// one more than the largest id there was.
pub proof fn lemma_add_allocates_next_id(notes: Seq<ItemView>, note: ItemView, m: usize)
    requires
        ids_increase(notes),
        note.id == next_id(notes),
        notes.len() > 0 ==> is_max_id(notes, m),
    ensures
        notes.push(note).len() == notes.len() + 1,
        notes.push(note).last() == note,
        notes.len() == 0 ==> note.id == 1,
        notes.len() > 0 ==> note.id == m + 1,
        ids_increase(notes.push(note)),
{
    if notes.len() > 0 {
        lemma_last_id_is_max(notes);
        let i = choose|i: int| 0 <= i < notes.len() && #[trigger] notes[i].id == m;
        assert(notes[i].id <= notes.last().id);
        assert(notes[notes.len() - 1].id <= m);
    }
    let after = notes.push(note);
    assert forall|i: int, j: int| 0 <= i < j < after.len() implies after[i].id < after[j].id by {
        if j < notes.len() {
            assert(after[i] == notes[i] && after[j] == notes[j]);
        } else {
            assert(after[i] == notes[i]);
            assert(notes[i].id <= notes[notes.len() - 1].id);
        }
    }
}

/// The first note with an id is found at one place only.
pub proof fn lemma_first_with_id(notes: Seq<ItemView>, id: usize, i: int)
    requires
        is_first_with_id(notes, id, i),
    ensures
        has_id(notes, id),
        first_with_id(notes, id) == i,
{
    let j = first_with_id(notes, id);
    assert(is_first_with_id(notes, id, j));
    if j < i {
        assert(notes[j].id != id);
    }
    if i < j {
        assert(notes[i].id != id);
    }
}

/// Where a note has the id, there is a first one that has it.
pub proof fn lemma_has_first(notes: Seq<ItemView>, id: usize)
    requires
        has_id(notes, id),
    ensures
        is_first_with_id(notes, id, first_with_id(notes, id)),
    decreases notes.len(),
{
    let i = choose|i: int| 0 <= i < notes.len() && #[trigger] notes[i].id == id;
    lemma_has_first_below(notes, id, i);
}

/// Where the note at `i` has the id, a first note with the id stands at `i`
/// or before it.
proof fn lemma_has_first_below(notes: Seq<ItemView>, id: usize, i: int)
    requires
        0 <= i < notes.len(),
        notes[i].id == id,
    ensures
        is_first_with_id(notes, id, first_with_id(notes, id)),
    decreases i,
{
    if forall|k: int| 0 <= k < i ==> notes[k].id != id {
        assert(is_first_with_id(notes, id, i));
    } else {
        let k = choose|k: int| 0 <= k < i && notes[k].id == id;
        lemma_has_first_below(notes, id, k);
    }
}

/// Deleting an id that no note has changes nothing; deleting one that a
/// note has takes out exactly one note, the first with that id, and leaves
/// the others in their order.
pub proof fn lemma_delete_one(notes: Seq<ItemView>, id: usize)
    ensures
        !has_id(notes, id) ==> without_id(notes, id) == notes,
        has_id(notes, id) ==> {
            let at = first_with_id(notes, id);
            &&& is_first_with_id(notes, id, at)
            &&& without_id(notes, id).len() == notes.len() - 1
            &&& without_id(notes, id) == notes.take(at) + notes.skip(at + 1)
        },
{
    if has_id(notes, id) {
        lemma_has_first(notes, id);
        let at = first_with_id(notes, id);
        assert(notes.remove(at) =~= notes.take(at) + notes.skip(at + 1));
    }
}

/// In a profile whose ids increase, a deleted id is gone, the ids still
/// increase, and deleting the id once more changes nothing.
pub proof fn lemma_delete_is_idempotent(notes: Seq<ItemView>, id: usize)
    requires
        ids_increase(notes),
    ensures
        !has_id(without_id(notes, id), id),
        ids_increase(without_id(notes, id)),
        without_id(without_id(notes, id), id) == without_id(notes, id),
        without_ids(notes, seq![id, id]) == without_ids(notes, seq![id]),
{
    let rest = without_id(notes, id);
    if has_id(notes, id) {
        lemma_has_first(notes, id);
        let at = first_with_id(notes, id);
        assert forall|k: int| 0 <= k < rest.len() implies rest[k].id != id by {
            if k < at {
                assert(rest[k] == notes[k]);
            } else {
                assert(rest[k] == notes[k + 1]);
                assert(notes[at].id < notes[k + 1].id);
            }
        }
        assert forall|i: int, j: int| 0 <= i < j < rest.len() implies rest[i].id < rest[j].id by {
            let a = if i < at {
                i
            } else {
                i + 1
            };
            let b = if j < at {
                j
            } else {
                j + 1
            };
            assert(rest[i] == notes[a] && rest[j] == notes[b]);
        }
    }
    assert(!has_id(rest, id));
    let once = seq![id];
    let twice = seq![id, id];
    assert(once.drop_last() =~= Seq::<usize>::empty());
    assert(twice.drop_last() =~= once);
    assert(without_ids(notes, once.drop_last()) == notes);
    assert(without_ids(notes, once) == rest);
    assert(without_ids(notes, twice) == without_id(without_ids(notes, once), id));
}

/// Deleting a list of ids keeps the ids of the profile increasing.
pub proof fn lemma_delete_keeps_order(notes: Seq<ItemView>, ids: Seq<usize>)
    requires
        ids_increase(notes),
    ensures
        ids_increase(without_ids(notes, ids)),
    decreases ids.len(),
{
    if ids.len() > 0 {
        lemma_delete_keeps_order(notes, ids.drop_last());
        lemma_delete_is_idempotent(without_ids(notes, ids.drop_last()), ids.last());
    }
}

/// Where the body of a new note comes from; `interactive` says whether the
/// program stands at a terminal.
pub fn add_body_source(use_stdin: bool, use_editor: bool, interactive: bool) -> (r: BodySource)
    ensures
        r == spec_add_body_source(use_stdin, use_editor, interactive),
{
    if use_stdin {
        BodySource::Stdin
    } else if !use_editor {
        BodySource::Literal
    } else if interactive {
        BodySource::Editor
    } else {
        BodySource::Nothing
    }
}

/// Whether `title` is the one character `-`.
fn title_is_pipe_sign(title: &str) -> (r: bool)
    ensures
        r == is_pipe_sign(title@),
{
    let r = title.unicode_len() == 1 && title.get_char(0) == '-';
    assert(r ==> title@ =~= seq!['-']);
    r
}

/// Where the new body of an edited note comes from; `interactive` says
/// whether the program stands at a terminal.
pub fn edit_body_source(
    title: &str,
    body: &[String],
    use_stdin: bool,
    use_editor: bool,
    interactive: bool,
) -> (r: BodySource)
    ensures
        r == spec_edit_body_source(title@, strings(body@), use_stdin, use_editor, interactive),
{
    if title_is_pipe_sign(title) || use_stdin {
        BodySource::Stdin
    } else if use_editor {
        if interactive {
            BodySource::Editor
        } else {
            BodySource::Nothing
        }
    } else if body.len() > 0 {
        BodySource::Literal
    } else {
        BodySource::Nothing
    }
}

/// Whether the user must agree before the editor opens.
pub fn editor_needs_consent(source: BodySource, encrypted: bool, yes: bool) -> (r: bool)
    ensures
        r == spec_editor_needs_consent(source, encrypted, yes),
{
    source == BodySource::Editor && encrypted && !yes
}

/// The body that a source gives.
fn body_from(source: BodySource, body: &[String], captured: &str) -> (r: String)
    ensures
        r@ == new_body(source, strings(body@), captured@),
{
    match source {
        BodySource::Stdin => captured.to_owned(),
        BodySource::Editor => captured.to_owned(),
        BodySource::Literal => {
            if body.len() > 0 {
                body[0].clone()
            } else {
                String::new()
            }
        },
        BodySource::Nothing => String::new(),
    }
}

/// Fails with `InvalidArgument` where a note is to be moved from a profile
/// to itself.
pub fn check_transfer(source_profile: &str, destination_profile: &str) -> (r: Result<(), Error>)
    ensures
        r is Ok <==> source_profile@ != destination_profile@,
        r is Err ==> r->Err_0@ is InvalidArgument,
{
    if str_eq(source_profile, destination_profile) {
        Err(
            Error::InvalidArgument("cannot transfer a note from a profile to itself".to_owned()),
        )
    } else {
        Ok(())
    }
}

impl Profile {
    /// The invariant of a profile: the ids of its notes increase.
    pub open spec fn wf(&self) -> bool {
        ids_increase(self@.notes)
    }

    /// A profile without notes, with the fingerprint 0, which says that no
    /// file was read for it.
    pub fn new(encrypted: bool) -> (r: (Profile, u64))
        ensures
            r.0@.encrypted == encrypted,
            r.0@.notes == Seq::<ItemView>::empty(),
            r.0.wf(),
            r.1 == 0,
    {
        let profile = Profile { encrypted, notes: Vec::new() };
        assert(profile@.notes =~= Seq::<ItemView>::empty());
        (profile, 0)
    }

    /// A profile with the same contents.
    pub fn duplicate(&self) -> (r: Profile)
        ensures
            r@ == self@,
    {
        let mut notes: Vec<Item> = Vec::new();
        let mut i: usize = 0;
        while i < self.notes.len()
            invariant
                i <= self.notes.len(),
                notes@.len() == i,
                forall|k: int| 0 <= k < i ==> notes@[k]@ == self.notes@[k]@,
            decreases self.notes.len() - i,
        {
            notes.push(self.notes[i].duplicate());
            i += 1;
        }
        assert(views(notes@) =~= views(self.notes@));
        Profile { encrypted: self.encrypted, notes }
    }

    /// Whether the ids of the notes increase.
    pub fn is_well_formed(&self) -> (r: bool)
        ensures
            r == self.wf(),
    {
        let mut i: usize = 1;
        while i < self.notes.len()
            invariant
                1 <= i,
                forall|a: int, b: int|
                    0 <= a < b < i && b < self.notes.len() ==> self@.notes[a].id < self@.notes[b].id,
            decreases self.notes.len() - i,
        {
            if self.notes[i - 1].id >= self.notes[i].id {
                assert(self@.notes[i - 1].id >= self@.notes[i as int].id);
                return false;
            }
            assert forall|a: int, b: int| 0 <= a < b < i + 1 && b < self.notes.len() implies self@.notes[a].id
                < self@.notes[b].id by {
                if b == i && a < i - 1 {
                    assert(self@.notes[a].id < self@.notes[i - 1].id);
                }
            }
            i += 1;
        }
        true
    }

    /// Removes every note, unless the user was asked and declined. `yes`
    /// says that nobody needs to be asked; `consent` is the answer, and
    /// counts only where `yes` is not set. Fails with `UserAborted`, and
    /// changes nothing, where the answer was no.
    pub fn clear(&mut self, yes: bool, consent: bool) -> (r: Result<(), Error>)
        ensures
            r is Ok <==> yes || consent,
            r is Ok ==> final(self)@.notes == Seq::<ItemView>::empty() && final(self)@.encrypted
                == old(self)@.encrypted && final(self).wf(),
            r is Err ==> *final(self) == *old(self) && r->Err_0@ == ErrorView::UserAborted,
    {
        if !yes && !consent {
            return Err(Error::UserAborted);
        }
        self.notes.truncate(0);
        assert(self@.notes =~= Seq::<ItemView>::empty());
        Ok(())
    }

    /// The place of the first note with the id `id`.
    pub fn position(&self, id: usize) -> (r: Option<usize>)
        ensures
            match r {
                Some(i) => is_first_with_id(self@.notes, id, i as int),
                None => !has_id(self@.notes, id),
            },
    {
        let mut i: usize = 0;
        while i < self.notes.len()
            invariant
                i <= self.notes.len(),
                forall|k: int| 0 <= k < i ==> self@.notes[k].id != id,
            decreases self.notes.len() - i,
        {
            if self.notes[i].id == id {
                return Some(i);
            }
            i += 1;
        }
        None
    }

    /// Appends a note and returns its id. The id is one more than that of
    /// the last note, or 1; the title loses its line feeds; the status is
    /// `Blank` where none is given; the body comes from `source`, `captured`
    /// being what was read from the pipe or the editor; `now` becomes the
    /// time of last change. Fails with `InvalidArgument`, and changes
    /// nothing, only where the id would be more than a `usize` can say.
    pub fn add_note(
        &mut self,
        title: &str,
        body: &[String],
        status: Option<Status>,
        source: BodySource,
        captured: &str,
        now: &str,
    ) -> (r: Result<usize, Error>)
        ensures
            r is Ok <==> next_id(old(self)@.notes) <= usize::MAX,
            r is Ok ==> {
                &&& r->Ok_0 == next_id(old(self)@.notes)
                &&& final(self)@.encrypted == old(self)@.encrypted
                &&& final(self)@.notes == old(self)@.notes.push(
                    added_note(
                        old(self)@.notes,
                        title@,
                        strings(body@),
                        status,
                        source,
                        captured@,
                        now@,
                    ),
                )
                &&& old(self).wf() ==> final(self).wf()
                &&& old(self).wf() && old(self)@.notes.len() > 0 ==> is_max_id(
                    old(self)@.notes,
                    (r->Ok_0 - 1) as usize,
                )
            },
            r is Err ==> *final(self) == *old(self) && r->Err_0@ is InvalidArgument,
    {
        let last: usize = if self.notes.len() == 0 {
            0
        } else {
            self.notes[self.notes.len() - 1].id
        };
        if last == usize::MAX {
            return Err(Error::InvalidArgument("the profile has no id left for a note".to_owned()));
        }
        let note = Item {
            id: last + 1,
            title: strip_newlines(title),
            status: match status {
                Some(s) => s,
                None => Status::Blank,
            },
            body: body_from(source, body, captured),
            last_touched: now.to_owned(),
        };
        proof {
            if old(self).wf() {
                if old(self)@.notes.len() > 0 {
                    lemma_last_id_is_max(old(self)@.notes);
                }
                lemma_add_allocates_next_id(old(self)@.notes, note@, last);
            }
        }
        self.notes.push(note);
        assert(self@.notes =~= old(self)@.notes.push(note@));
        Ok(last + 1)
    }

    /// Deletes the notes with the ids of `id`, one id after the other, and
    /// reports for each id whether a note was deleted. An id that no note
    /// has changes nothing.
    pub fn delete_note(&mut self, id: &[usize]) -> (deleted: Vec<bool>)
        ensures
            final(self)@.encrypted == old(self)@.encrypted,
            final(self)@.notes == without_ids(old(self)@.notes, id@),
            deleted@.len() == id@.len(),
            forall|k: int|
                0 <= k < id@.len() ==> deleted@[k] == #[trigger] deletion_finds(
                    old(self)@.notes,
                    id@,
                    k,
                ),
            old(self).wf() ==> final(self).wf(),
    {
        let mut deleted: Vec<bool> = Vec::new();
        let mut n: usize = 0;
        assert(id@.take(0) =~= Seq::<usize>::empty());
        while n < id.len()
            invariant
                n <= id.len(),
                self@.encrypted == old(self)@.encrypted,
                self@.notes == without_ids(old(self)@.notes, id@.take(n as int)),
                deleted@.len() == n,
                forall|k: int|
                    0 <= k < n ==> deleted@[k] == #[trigger] deletion_finds(
                        old(self)@.notes,
                        id@,
                        k,
                    ),
            decreases id.len() - n,
        {
            let ghost before = self@.notes;
            let found = self.position(id[n]);
            proof {
                assert(id@.take(n + 1).drop_last() =~= id@.take(n as int));
                assert(id@.take(n + 1).last() == id@[n as int]);
            }
            match found {
                Some(at) => {
                    proof {
                        lemma_first_with_id(before, id@[n as int], at as int);
                    }
                    self.notes.remove(at);
                    assert(self@.notes =~= before.remove(at as int));
                    deleted.push(true);
                },
                None => {
                    deleted.push(false);
                },
            }
            n += 1;
        }
        proof {
            assert(id@.take(id.len() as int) =~= id@);
            if old(self).wf() {
                lemma_delete_keeps_order(old(self)@.notes, id@);
            }
        }
        deleted
    }

    /// Changes the first note with the id `id`, as `edited_note` says.
    /// `captured` is what was read from the pipe or the editor; `consent` is
    /// the answer of the user where `editor_needs_consent` asked for one.
    /// Fails with `NoteNotFound` where no note has the id, and with
    /// `UserAborted` where consent was needed and not given; it then changes
    /// nothing.
    pub fn edit_note(
        &mut self,
        id: usize,
        title: &str,
        body: &[String],
        status: Option<Status>,
        source: BodySource,
        flags: BoolFlags,
        consent: bool,
        captured: &str,
        now: &str,
    ) -> (r: Result<(), Error>)
        ensures
            r is Ok <==> has_id(old(self)@.notes, id) && (spec_editor_needs_consent(
                source,
                flags.encrypted,
                flags.yes,
            ) ==> consent),
            r is Ok ==> {
                let at = first_with_id(old(self)@.notes, id);
                &&& final(self)@.encrypted == old(self)@.encrypted
                &&& final(self)@.notes == old(self)@.notes.update(
                    at,
                    edited_note(
                        old(self)@.notes[at],
                        title@,
                        strings(body@),
                        status,
                        source,
                        captured@,
                        now@,
                    ),
                )
                &&& old(self).wf() ==> final(self).wf()
            },
            r is Err ==> *final(self) == *old(self),
            r is Err ==> r->Err_0@ == if has_id(old(self)@.notes, id) {
                ErrorView::UserAborted
            } else {
                ErrorView::NoteNotFound(id)
            },
    {
        let at = match self.position(id) {
            Some(at) => at,
            None => {
                return Err(Error::NoteNotFound(id));
            },
        };
        proof {
            lemma_first_with_id(self@.notes, id, at as int);
        }
        if editor_needs_consent(source, flags.encrypted, flags.yes) && !consent {
            return Err(Error::UserAborted);
        }
        let old_note = &self.notes[at];
        let new_title = if title.unicode_len() > 0 && !title_is_pipe_sign(title) {
            strip_newlines(title)
        } else {
            old_note.title.clone()
        };
        let new_body_text = match source {
            BodySource::Nothing => old_note.body.clone(),
            _ => body_from(source, body, captured),
        };
        let note = Item {
            id: old_note.id,
            title: new_title,
            status: match status {
                Some(s) => s,
                None => Status::Blank,
            },
            body: new_body_text,
            last_touched: now.to_owned(),
        };
        self.notes.set(at, note);
        assert(self@.notes =~= old(self)@.notes.update(at as int, note@));
        Ok(())
    }

    /// Appends to `destination` a copy of the first note with the id `id`
    /// and returns the id of the copy. The copy has the title, the status
    /// and the body of the note, the next id of `destination`, and `now` as
    /// its time of last change. Fails with `NoteNotFound` where no note has
    /// the id, and with `InvalidArgument` where `destination` has no id
    /// left; it then changes nothing.
    pub fn copy_note_to(&self, id: usize, destination: &mut Profile, now: &str) -> (r: Result<
        usize,
        Error,
    >)
        ensures
            r is Ok <==> has_id(self@.notes, id) && next_id(old(destination)@.notes) <= usize::MAX,
            r is Ok ==> {
                &&& r->Ok_0 == next_id(old(destination)@.notes)
                &&& final(destination)@.encrypted == old(destination)@.encrypted
                &&& final(destination)@.notes == old(destination)@.notes.push(
                    transferred_note(
                        old(destination)@.notes,
                        self@.notes[first_with_id(self@.notes, id)],
                        now@,
                    ),
                )
                &&& old(destination).wf() ==> final(destination).wf()
            },
            r is Err ==> *final(destination) == *old(destination),
            r is Err ==> r->Err_0@ == if has_id(self@.notes, id) {
                r->Err_0@
            } else {
                ErrorView::NoteNotFound(id)
            },
            r is Err && has_id(self@.notes, id) ==> r->Err_0@ is InvalidArgument,
    {
        let at = match self.position(id) {
            Some(at) => at,
            None => {
                return Err(Error::NoteNotFound(id));
            },
        };
        proof {
            lemma_first_with_id(self@.notes, id, at as int);
        }
        let last: usize = if destination.notes.len() == 0 {
            0
        } else {
            destination.notes[destination.notes.len() - 1].id
        };
        if last == usize::MAX {
            return Err(
                Error::InvalidArgument("the profile has no id left for a note".to_owned()),
            );
        }
        let from = &self.notes[at];
        let note = Item {
            id: last + 1,
            title: from.title.clone(),
            status: from.status,
            body: from.body.clone(),
            last_touched: now.to_owned(),
        };
        proof {
            if old(destination).wf() {
                if old(destination)@.notes.len() > 0 {
                    lemma_last_id_is_max(old(destination)@.notes);
                }
                lemma_add_allocates_next_id(old(destination)@.notes, note@, last);
            }
        }
        destination.notes.push(note);
        assert(destination@.notes =~= old(destination)@.notes.push(note@));
        Ok(last + 1)
    }

    /// Removes the first note with the id `id`, once it was copied to
    /// another profile. Fails with `TransferIncomplete`, and changes
    /// nothing, where no note has the id: the copy then stays where it is.
    pub fn remove_transferred(&mut self, id: usize) -> (r: Result<(), Error>)
        ensures
            r is Ok <==> has_id(old(self)@.notes, id),
            final(self)@.encrypted == old(self)@.encrypted,
            final(self)@.notes == without_id(old(self)@.notes, id),
            r is Err ==> *final(self) == *old(self) && r->Err_0@ == ErrorView::TransferIncomplete(
                id,
            ),
            old(self).wf() ==> final(self).wf(),
    {
        proof {
            if old(self).wf() {
                lemma_delete_is_idempotent(old(self)@.notes, id);
            }
        }
        match self.position(id) {
            Some(at) => {
                proof {
                    lemma_first_with_id(self@.notes, id, at as int);
                }
                self.notes.remove(at);
                assert(self@.notes =~= old(self)@.notes.remove(at as int));
                Ok(())
            },
            None => Err(Error::TransferIncomplete(id)),
        }
    }

    /// Moves the first note with the id `id` to `destination`: copies it
    /// there as `copy_note_to` does, then removes it here, and returns the
    /// id of the copy. Fails, and changes neither profile, where no note has
    /// the id (`NoteNotFound`) or `destination` has no id left
    /// (`InvalidArgument`).
    pub fn transfer_note(&mut self, id: usize, destination: &mut Profile, now: &str) -> (r: Result<
        usize,
        Error,
    >)
        ensures
            r is Ok <==> has_id(old(self)@.notes, id) && next_id(old(destination)@.notes)
                <= usize::MAX,
            r is Ok ==> {
                &&& r->Ok_0 == next_id(old(destination)@.notes)
                &&& final(self)@.encrypted == old(self)@.encrypted
                &&& final(self)@.notes == without_id(old(self)@.notes, id)
                &&& final(destination)@.encrypted == old(destination)@.encrypted
                &&& final(destination)@.notes == old(destination)@.notes.push(
                    transferred_note(
                        old(destination)@.notes,
                        old(self)@.notes[first_with_id(old(self)@.notes, id)],
                        now@,
                    ),
                )
                &&& old(self).wf() ==> final(self).wf() && !has_id(final(self)@.notes, id)
                &&& old(destination).wf() ==> final(destination).wf()
            },
            r is Err ==> *final(self) == *old(self) && *final(destination) == *old(destination),
            r is Err && !has_id(old(self)@.notes, id) ==> r->Err_0@ == ErrorView::NoteNotFound(id),
            r is Err && has_id(old(self)@.notes, id) ==> r->Err_0@ is InvalidArgument,
    {
        proof {
            if old(self).wf() {
                lemma_delete_is_idempotent(old(self)@.notes, id);
            }
        }
        match self.copy_note_to(id, destination, now) {
            Ok(copy) => {
                match self.remove_transferred(id) {
                    Ok(()) => Ok(copy),
                    Err(e) => Err(e),
                }
            },
            Err(e) => Err(e),
        }
    }
}

} // verus!
