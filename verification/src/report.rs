//! What a profile shows of itself: the notes that match a search, a list,
//! one note in full, and the counts of the profile.

use vstd::prelude::*;
use vstd::string::StrSliceExecFns;
use vstd::string::StringExecFns;
use vstd::utf8::encode_utf8;
use crate::errors::{Error, ErrorView};
use crate::item::{Item, ItemView, Status, views};
use crate::listing::{can_be_listed, is_list_of, sorted_print};
use crate::profile::{first_with_id, has_id, lemma_first_with_id, Profile};
use crate::query::{all_dated, has_status, is_selection, select_notes};
use crate::text::{contains, decimal, decimal_string, occurs_in};
use crate::utils::{
    check_pattern, localize_last_touched_string, parse_last_touched, pattern_compiles,
    pattern_is_match, pattern_matches, spec_localize, spec_parse_last_touched, valid_offset,
};
use crate::BoolFlags;

verus! {

/// What a list command hands back: a text to print as it is, or the notes
/// to print as a structured array.
#[derive(Debug, Clone)]
pub enum Listing {
    Text(Vec<u8>),
    Notes(Vec<Item>),
}

/// The test "the pattern is found in the note": in its body where bodies
/// are searched, else in its title; as a regular expression where the flag
/// says so, else as a run of characters. Upper and lower case differ.
pub open spec fn note_matches(pattern: Seq<char>, flags: BoolFlags) -> spec_fn(ItemView) -> bool {
    |note: ItemView|
        {
            let text = if flags.search_body {
                note.body
            } else {
                note.title
            };
            if flags.regex {
                pattern_matches(pattern, text)
            } else {
                occurs_in(pattern, text)
            }
        }
}

/// The line that stands for a list without notes.
pub open spec fn empty_text(json: bool, words: Seq<char>) -> Seq<char> {
    if json {
        "[]\n"@
    } else {
        words + "\n"@
    }
}

/// Whether `listing` is what a list command shows of `notes`. Without
/// notes it is one line: an empty array where the structured form was
/// asked for, else `words`. With notes it is the notes that the list
/// shows, as a text or, for the structured form, as they are.
pub open spec fn is_listing_of(
    listing: Listing,
    notes: Seq<ItemView>,
    words: Seq<char>,
    limit: usize,
    flags: BoolFlags,
    status: Option<Status>,
    console_width: nat,
) -> bool {
    match listing {
        Listing::Text(text) => if notes.len() == 0 {
            text@ == encode_utf8(empty_text(flags.json, words))
        } else {
            !flags.json && is_list_of(text@, notes, limit, flags, status, console_width)
        },
        Listing::Notes(shown) => notes.len() > 0 && flags.json && is_selection(
            views(shown@),
            notes,
            limit,
            flags,
            status,
        ),
    }
}

/// Whether a list command can show `notes`. A list without notes always
/// can; the structured form needs the times of last change only where the
/// list is sorted by date; a text needs what `can_be_listed` says.
pub open spec fn can_be_shown(
    notes: Seq<ItemView>,
    limit: usize,
    flags: BoolFlags,
    status: Option<Status>,
) -> bool {
    if notes.len() == 0 {
        true
    } else if flags.json {
        !flags.datesort || all_dated(notes.filter(has_status(status)))
    } else {
        can_be_listed(notes, limit, flags, status)
    }
}

/// The labels and the values of a note shown in full.
pub open spec fn pairs(fields: Seq<(String, String)>) -> Seq<(Seq<char>, Seq<char>)> {
    Seq::new(fields.len(), |i: int| (fields[i].0@, fields[i].1@))
}

/// What ends a value: a line feed, and an empty line in the long form.
pub open spec fn field_end(condensed: bool) -> Seq<char> {
    if condensed {
        "\n"@
    } else {
        "\n\n"@
    }
}

/// The fields of a note shown in full, each a label and a value: id and
/// title, the status unless it is `Blank`, the time of last change, and
/// the body unless it is empty.
pub open spec fn spec_fields(note: ItemView, condensed: bool, touched: Seq<char>) -> Seq<
    (Seq<char>, Seq<char>),
> {
    let end = field_end(condensed);
    seq![
        (if condensed { "id: "@ } else { "id\n--\n"@ }, decimal(note.id as nat) + end),
        (if condensed { "title: "@ } else { "title\n-----\n"@ }, note.title + end),
    ] + (if note.status != Status::Blank {
        seq![
            (
                if condensed { "status: "@ } else { "status\n------\n"@ },
                (if condensed { note.status.label() } else { note.status.name() }) + end,
            ),
        ]
    } else {
        Seq::empty()
    }) + seq![
        (
            if condensed { "last touched: "@ } else { "last touched\n------------\n"@ },
            touched + end,
        ),
    ] + (if note.body.len() > 0 {
        seq![(if condensed { "body: "@ } else { "body\n----\n"@ }, note.body + end)]
    } else {
        Seq::empty()
    })
}

/// The number of notes with the status `status`.
pub open spec fn count_status(notes: Seq<ItemView>, status: Status) -> nat {
    notes.filter(|note: ItemView| note.status == status).len()
}

/// The moment of the last change of a note.
pub open spec fn moment(note: ItemView) -> int {
    spec_parse_last_touched(note.last_touched)->0 as int
}

/// The note at `i` is the oldest: the first of those that were changed
/// longest ago.
pub open spec fn is_oldest(notes: Seq<ItemView>, i: int) -> bool {
    &&& 0 <= i < notes.len()
    &&& forall|j: int| 0 <= j < notes.len() ==> moment(notes[i]) <= moment(#[trigger] notes[j])
    &&& forall|j: int| 0 <= j < i ==> moment(notes[i]) < moment(#[trigger] notes[j])
}

/// The note at `i` is the newest: the last of those that were changed
/// most recently.
pub open spec fn is_newest(notes: Seq<ItemView>, i: int) -> bool {
    &&& 0 <= i < notes.len()
    &&& forall|j: int| 0 <= j < notes.len() ==> moment(#[trigger] notes[j]) <= moment(notes[i])
    &&& forall|j: int| i < j < notes.len() ==> moment(#[trigger] notes[j]) < moment(notes[i])
}

/// The counts of a profile, and the times of last change of its oldest and
/// its newest note as they are shown.
#[derive(Debug, Clone)]
pub struct Stats {
    pub notes: usize,
    pub blank: usize,
    pub started: usize,
    pub urgent: usize,
    pub oldest: String,
    pub newest: String,
}

/// One field: a label, and a value with its end.
fn field(label: &str, value: &str, end: &str) -> (r: (String, String))
    ensures
        r.0@ == label@,
        r.1@ == value@ + end@,
{
    let mut text = value.to_owned();
    text.append(end);
    (label.to_owned(), text)
}

impl Item {
    /// The fields of the note shown in full, with `touched` as its time of
    /// last change.
    pub fn fields(&self, condensed: bool, touched: &str) -> (r: Vec<(String, String)>)
        ensures
            pairs(r@) == spec_fields(self@, condensed, touched@),
    {
        let end = if condensed {
            "\n"
        } else {
            "\n\n"
        };
        let mut out: Vec<(String, String)> = Vec::new();
        let id = decimal_string(self.id);
        out.push(
            field(
                if condensed {
                    "id: "
                } else {
                    "id\n--\n"
                },
                id.as_str(),
                end,
            ),
        );
        out.push(
            field(
                if condensed {
                    "title: "
                } else {
                    "title\n-----\n"
                },
                self.title.as_str(),
                end,
            ),
        );
        if self.status != Status::Blank {
            let status = if condensed {
                self.status.to_string()
            } else {
                self.status.debug_name()
            };
            out.push(
                field(
                    if condensed {
                        "status: "
                    } else {
                        "status\n------\n"
                    },
                    status.as_str(),
                    end,
                ),
            );
        }
        out.push(
            field(
                if condensed {
                    "last touched: "
                } else {
                    "last touched\n------------\n"
                },
                touched,
                end,
            ),
        );
        if self.body.as_str().unicode_len() > 0 {
            out.push(
                field(
                    if condensed {
                        "body: "
                    } else {
                        "body\n----\n"
                    },
                    self.body.as_str(),
                    end,
                ),
            );
        }
        assert(pairs(out@) =~= spec_fields(self@, condensed, touched@));
        out
    }
}

/// What a list command shows of `notes`; `words` is the line for a list
/// without notes.
fn show(
    notes: &[Item],
    words: &str,
    limit: usize,
    flags: BoolFlags,
    status: Option<Status>,
    console_width: usize,
) -> (r: Result<Listing, Error>)
    ensures
        r is Ok ==> is_listing_of(
            r->Ok_0,
            views(notes@),
            words@,
            limit,
            flags,
            status,
            console_width as nat,
        ),
        r is Ok <==> can_be_shown(views(notes@), limit, flags, status),
        r is Err ==> r->Err_0@ is InvalidArgument || r->Err_0@ is InvalidTimestamp,
{
    if notes.len() == 0 {
        let text = if flags.json {
            "[]\n".to_owned()
        } else {
            let mut line = words.to_owned();
            line.append("\n");
            line
        };
        Ok(Listing::Text(text.as_str().as_bytes_vec()))
    } else if flags.json {
        match select_notes(notes, limit, flags, status) {
            Ok(shown) => Ok(Listing::Notes(shown)),
            Err(e) => Err(e),
        }
    } else {
        match sorted_print(notes, limit, flags, status, console_width) {
            Ok(text) => Ok(Listing::Text(text)),
            Err(e) => Err(e),
        }
    }
}

impl Profile {
    /// The notes in which the pattern is found, in their order. Fails with
    /// `InvalidPattern` where a regular expression is asked for and the
    /// pattern does not compile.
    pub fn matching_notes(&self, pattern: &str, flags: BoolFlags) -> (r: Result<Vec<Item>, Error>)
        ensures
            r is Ok <==> !flags.regex || pattern_compiles(pattern@),
            r is Ok ==> views(r->Ok_0@) == self@.notes.filter(note_matches(pattern@, flags)),
            r is Err ==> r->Err_0@ is InvalidPattern,
    {
        if flags.regex {
            match check_pattern(pattern) {
                Ok(()) => {},
                Err(e) => {
                    return Err(e);
                },
            }
        }
        let mut found: Vec<Item> = Vec::new();
        let mut i: usize = 0;
        proof {
            reveal(Seq::filter);
            assert(views(self.notes@.take(0)) =~= Seq::<ItemView>::empty());
            assert(views(found@) =~= Seq::<ItemView>::empty());
        }
        while i < self.notes.len()
            invariant
                i <= self.notes.len(),
                flags.regex ==> pattern_compiles(pattern@),
                views(found@) == views(self.notes@.take(i as int)).filter(
                    note_matches(pattern@, flags),
                ),
            decreases self.notes.len() - i,
        {
            let note = &self.notes[i];
            let text = if flags.search_body {
                note.body.as_str()
            } else {
                note.title.as_str()
            };
            let hit = if flags.regex {
                pattern_is_match(pattern, text)
            } else {
                contains(text, pattern)
            };
            let ghost before = views(found@);
            proof {
                let prefix = views(self.notes@.take(i as int));
                prefix.lemma_filter_push(note@, note_matches(pattern@, flags));
                assert(views(self.notes@.take(i + 1)) =~= prefix.push(note@));
            }
            if hit {
                found.push(note.duplicate());
                assert(views(found@) =~= before.push(note@));
            }
            i += 1;
        }
        proof {
            assert(self.notes@.take(self.notes.len() as int) =~= self.notes@);
        }
        Ok(found)
    }

    /// What the list of the profile shows, on a console of `console_width`
    /// columns and in the zone of this machine.
    pub fn list_notes(
        &self,
        limit: usize,
        flags: BoolFlags,
        status: Option<Status>,
        console_width: usize,
    ) -> (r: Result<Listing, Error>)
        ensures
            r is Ok ==> is_listing_of(
                r->Ok_0,
                self@.notes,
                "this profile is empty"@,
                limit,
                flags,
                status,
                console_width as nat,
            ),
            r is Ok <==> can_be_shown(self@.notes, limit, flags, status),
            r is Err ==> r->Err_0@ is InvalidArgument || r->Err_0@ is InvalidTimestamp,
    {
        show(self.notes.as_slice(), "this profile is empty", limit, flags, status, console_width)
    }

    /// What the list of the notes in which the pattern is found shows.
    /// Fails with `InvalidPattern` where a regular expression is asked for
    /// and the pattern does not compile.
    pub fn search_notes(
        &self,
        pattern: &str,
        limit: usize,
        flags: BoolFlags,
        status: Option<Status>,
        console_width: usize,
    ) -> (r: Result<Listing, Error>)
        ensures
            r is Ok ==> is_listing_of(
                r->Ok_0,
                self@.notes.filter(note_matches(pattern@, flags)),
                "nothing found"@,
                limit,
                flags,
                status,
                console_width as nat,
            ),
            r is Ok <==> (!flags.regex || pattern_compiles(pattern@)) && can_be_shown(
                self@.notes.filter(note_matches(pattern@, flags)),
                limit,
                flags,
                status,
            ),
            flags.regex && !pattern_compiles(pattern@) ==> r is Err && r->Err_0@ is InvalidPattern,
            r is Err ==> r->Err_0@ is InvalidPattern || r->Err_0@ is InvalidArgument || r->Err_0@
                is InvalidTimestamp,
    {
        let found = match self.matching_notes(pattern, flags) {
            Ok(found) => found,
            Err(e) => {
                return Err(e);
            },
        };
        show(found.as_slice(), "nothing found", limit, flags, status, console_width)
    }

    /// The first note with the id `id`, shown in full, with its time of
    /// last change in the zone of this machine. Fails with `NoteNotFound`
    /// where no note has the id, and with `InvalidTimestamp` where the time
    /// of last change of the note cannot be read.
    pub fn view_note(&self, id: usize, condensed: bool) -> (r: Result<Vec<(String, String)>, Error>)
        ensures
            r is Ok <==> has_id(self@.notes, id) && spec_parse_last_touched(
                self@.notes[first_with_id(self@.notes, id)].last_touched,
            ) is Some,
            r is Ok ==> exists|offset: i32|
                valid_offset(offset) && pairs(r->Ok_0@) == spec_fields(
                    self@.notes[first_with_id(self@.notes, id)],
                    condensed,
                    #[trigger] spec_localize(
                        self@.notes[first_with_id(self@.notes, id)].last_touched,
                        offset,
                    )->0,
                ),
            r is Err ==> r->Err_0@ == if has_id(self@.notes, id) {
                ErrorView::InvalidTimestamp(
                    self@.notes[first_with_id(self@.notes, id)].last_touched,
                )
            } else {
                ErrorView::NoteNotFound(id)
            },
    {
        let at = match self.position(id) {
            Some(at) => at,
            None => {
                return Err(Error::NoteNotFound(id));
            },
        };
        proof {
            lemma_first_with_id(self@.notes, id, at as int);
        }
        let note = &self.notes[at];
        match localize_last_touched_string(note.last_touched.as_str()) {
            Ok(touched) => {
                let fields = note.fields(condensed, touched.as_str());
                proof {
                    let offset = choose|offset: i32|
                        valid_offset(offset) && #[trigger] spec_localize(
                            note.last_touched@,
                            offset,
                        ) == Some(touched@);
                    assert(spec_localize(
                        self@.notes[first_with_id(self@.notes, id)].last_touched,
                        offset,
                    )->0 == touched@);
                }
                Ok(fields)
            },
            Err(e) => Err(e),
        }
    }

    /// The number of notes with the status `status`.
    pub fn count(&self, status: Status) -> (r: usize)
        ensures
            r == count_status(self@.notes, status),
    {
        let mut n: usize = 0;
        let mut i: usize = 0;
        let ghost pred = |note: ItemView| note.status == status;
        proof {
            reveal(Seq::filter);
            assert(views(self.notes@.take(0)) =~= Seq::<ItemView>::empty());
        }
        while i < self.notes.len()
            invariant
                i <= self.notes.len(),
                n <= i,
                pred == (|note: ItemView| note.status == status),
                n == views(self.notes@.take(i as int)).filter(pred).len(),
            decreases self.notes.len() - i,
        {
            proof {
                let prefix = views(self.notes@.take(i as int));
                prefix.lemma_filter_push(self.notes[i as int]@, pred);
                assert(views(self.notes@.take(i + 1)) =~= prefix.push(self.notes[i as int]@));
            }
            if self.notes[i].status == status {
                n += 1;
            }
            i += 1;
        }
        proof {
            assert(self.notes@.take(self.notes.len() as int) =~= self.notes@);
        }
        n
    }

    /// The places of the oldest and of the newest note. Fails with
    /// `InvalidArgument` in a profile without notes, and with
    /// `InvalidTimestamp` where the time of last change of a note cannot be
    /// read.
    pub fn oldest_and_newest(&self) -> (r: Result<(usize, usize), Error>)
        ensures
            r is Ok <==> self@.notes.len() > 0 && all_dated(self@.notes),
            r is Ok ==> is_oldest(self@.notes, r->Ok_0.0 as int) && is_newest(
                self@.notes,
                r->Ok_0.1 as int,
            ),
            r is Err ==> if self@.notes.len() == 0 {
                r->Err_0@ is InvalidArgument
            } else {
                r->Err_0@ is InvalidTimestamp
            },
    {
        if self.notes.len() == 0 {
            return Err(Error::InvalidArgument("the profile has no notes".to_owned()));
        }
        let mut oldest: usize = 0;
        let mut newest: usize = 0;
        let mut low: i64 = 0;
        let mut high: i64 = 0;
        let mut i: usize = 0;
        while i < self.notes.len()
            invariant
                i <= self.notes.len(),
                self.notes.len() > 0,
                forall|j: int|
                    0 <= j < i ==> spec_parse_last_touched(#[trigger] self@.notes[j].last_touched)
                        is Some,
                i == 0 ==> oldest == 0 && newest == 0,
                i > 0 ==> oldest < i && newest < i && low == moment(self@.notes[oldest as int])
                    && high == moment(self@.notes[newest as int]),
                i > 0 ==> forall|j: int|
                    0 <= j < i ==> low <= moment(#[trigger] self@.notes[j]) <= high,
                i > 0 ==> forall|j: int|
                    0 <= j < oldest ==> low < moment(#[trigger] self@.notes[j]),
                i > 0 ==> forall|j: int|
                    newest < j < i ==> moment(#[trigger] self@.notes[j]) < high,
            decreases self.notes.len() - i,
        {
            proof {
                assert(self@.notes[i as int] == self.notes[i as int]@);
            }
            let unix = match parse_last_touched(self.notes[i].last_touched.as_str()) {
                Ok(unix) => unix,
                Err(e) => {
                    assert(spec_parse_last_touched(self@.notes[i as int].last_touched) is None);
                    return Err(e);
                },
            };
            proof {
                assert(self.notes[i as int]@.last_touched == self.notes[i as int].last_touched@);
                assert(spec_parse_last_touched(self@.notes[i as int].last_touched) == Some(unix));
                assert(moment(self@.notes[i as int]) == unix);
            }
            if i == 0 {
                low = unix;
                high = unix;
            } else {
                if unix < low {
                    low = unix;
                    oldest = i;
                }
                if unix >= high {
                    high = unix;
                    newest = i;
                }
            }
            i += 1;
        }
        Ok((oldest, newest))
    }

    /// The counts of the profile, and when its oldest and its newest note
    /// were last changed, in the zone of this machine. Fails as
    /// `oldest_and_newest` does.
    pub fn stats(&self) -> (r: Result<Stats, Error>)
        ensures
            r is Ok <==> self@.notes.len() > 0 && all_dated(self@.notes),
            r is Ok ==> {
                let stats = r->Ok_0;
                &&& stats.notes == self@.notes.len()
                &&& stats.blank == count_status(self@.notes, Status::Blank)
                &&& stats.started == count_status(self@.notes, Status::Started)
                &&& stats.urgent == count_status(self@.notes, Status::Urgent)
                &&& exists|i: int, offset: i32|
                    is_oldest(self@.notes, i) && valid_offset(offset) && #[trigger] spec_localize(
                        self@.notes[i].last_touched,
                        offset,
                    ) == Some(stats.oldest@)
                &&& exists|i: int, offset: i32|
                    is_newest(self@.notes, i) && valid_offset(offset) && #[trigger] spec_localize(
                        self@.notes[i].last_touched,
                        offset,
                    ) == Some(stats.newest@)
            },
            r is Err ==> if self@.notes.len() == 0 {
                r->Err_0@ is InvalidArgument
            } else {
                r->Err_0@ is InvalidTimestamp
            },
    {
        let (first, last) = match self.oldest_and_newest() {
            Ok(places) => places,
            Err(e) => {
                return Err(e);
            },
        };
        proof {
            assert(self@.notes[first as int] == self.notes[first as int]@);
            assert(self@.notes[last as int] == self.notes[last as int]@);
            assert(spec_parse_last_touched(self@.notes[first as int].last_touched) is Some);
            assert(spec_parse_last_touched(self@.notes[last as int].last_touched) is Some);
        }
        let oldest = match localize_last_touched_string(self.notes[first].last_touched.as_str()) {
            Ok(shown) => shown,
            Err(e) => {
                return Err(e);
            },
        };
        let newest = match localize_last_touched_string(self.notes[last].last_touched.as_str()) {
            Ok(shown) => shown,
            Err(e) => {
                return Err(e);
            },
        };
        proof {
            let a = choose|offset: i32|
                valid_offset(offset) && #[trigger] spec_localize(
                    self.notes[first as int].last_touched@,
                    offset,
                ) == Some(oldest@);
            assert(is_oldest(self@.notes, first as int) && valid_offset(a) && spec_localize(
                self@.notes[first as int].last_touched,
                a,
            ) == Some(oldest@));
            let b = choose|offset: i32|
                valid_offset(offset) && #[trigger] spec_localize(
                    self.notes[last as int].last_touched@,
                    offset,
                ) == Some(newest@);
            assert(is_newest(self@.notes, last as int) && valid_offset(b) && spec_localize(
                self@.notes[last as int].last_touched,
                b,
            ) == Some(newest@));
        }
        Ok(
            Stats {
                notes: self.notes.len(),
                blank: self.count(Status::Blank),
                started: self.count(Status::Started),
                urgent: self.count(Status::Urgent),
                oldest,
                newest,
            },
        )
    }
}

} // verus!
