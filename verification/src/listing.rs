//! The text of a list of notes.

use vstd::prelude::*;
use vstd::string::StrSliceExecFns;
use vstd::string::StringExecFns;
use vstd::utf8::encode_utf8;
use crate::errors::{Error, ErrorView};
use crate::item::{spec_line, Item, ItemView, Status, views};
use crate::lineformat::{lemma_title_width_bound, spec_full_line_width, LineFormat};
use crate::query::{
    all_dated, has_status, is_selection, lemma_selection_is_unique, select_notes,
};
use crate::text::{push_spaces, spaces};
use crate::utils::{
    format_field, local_offset_of, spec_format_field, spec_localize, spec_parse_last_touched,
    valid_offset,
};
use crate::BoolFlags;

verus! {

/// A rule of `n` hyphens.
pub open spec fn rule(n: nat) -> Seq<char> {
    Seq::new(n, |i: int| '-')
}

/// The heading of a list: the names of the columns, laid out as the
/// columns are, and under them a rule as wide as a line.
pub open spec fn spec_header(format: LineFormat) -> Seq<char> {
    spec_format_field("id"@, format.id_width as nat, false) + spaces(format.colsep as nat)
        + spec_format_field("title"@, format.title_width as nat, false) + spaces(
        format.colsep as nat,
    ) + (if format.status_width != 0 {
        spec_format_field("status"@, format.status_width as nat, false) + spaces(
            format.colsep as nat,
        )
    } else {
        Seq::empty()
    }) + spec_format_field("last touched"@, format.touched_width as nat, false) + seq!['\n']
        + rule(format.spec_width()) + seq!['\n']
}

/// The lines of the notes, one note after the other, in UTF-8; the time of
/// last change of the note at `i` is shown at `offsets[i]` seconds east of
/// UTC.
pub open spec fn spec_lines(
    notes: Seq<ItemView>,
    format: LineFormat,
    search_body: bool,
    offsets: Seq<i32>,
) -> Seq<u8>
    decreases notes.len(),
{
    if notes.len() == 0 {
        Seq::empty()
    } else {
        spec_lines(notes.drop_last(), format, search_body, offsets.drop_last()) + encode_utf8(
            spec_line(
                notes.last(),
                format,
                search_body,
                spec_localize(notes.last().last_touched, offsets.last())->0,
            ),
        )
    }
}

/// The text of a list under the layout `format`: the heading, unless the
/// list is condensed, and the lines of the notes.
pub open spec fn spec_list(
    notes: Seq<ItemView>,
    format: LineFormat,
    flags: BoolFlags,
    offsets: Seq<i32>,
) -> Seq<u8> {
    (if flags.condensed {
        Seq::empty()
    } else {
        encode_utf8(spec_header(format))
    }) + spec_lines(notes, format, flags.search_body, offsets)
}

/// Whether every offset is one that a zone can have.
pub open spec fn all_valid(offsets: Seq<i32>) -> bool {
    forall|i: int| 0 <= i < offsets.len() ==> valid_offset(#[trigger] offsets[i])
}

/// Appends `n` hyphens to `s`.
fn push_rule(s: &mut String, n: usize)
    ensures
        final(s)@ == old(s)@ + rule(n as nat),
{
    let mut i: usize = 0;
    while i < n
        invariant
            i <= n,
            s@ == old(s)@ + rule(i as nat),
        decreases n - i,
    {
        s.push('-');
        i += 1;
        assert(s@ =~= old(s)@ + rule(i as nat));
    }
}

/// The heading of a list under the layout `format`. The layout must be one
/// whose line width a `usize` can say, as every layout made by
/// `LineFormat::new` is.
pub fn header(format: &LineFormat) -> (r: String)
    requires
        format.spec_width() <= usize::MAX,
    ensures
        r@ == spec_header(*format),
{
    let id = "id".to_owned();
    let title = "title".to_owned();
    let status = "status".to_owned();
    let touched = "last touched".to_owned();
    let mut out = format_field(&id, format.id_width, false);
    push_spaces(&mut out, format.colsep);
    out.append(format_field(&title, format.title_width, false).as_str());
    push_spaces(&mut out, format.colsep);
    if format.status_width != 0 {
        out.append(format_field(&status, format.status_width, false).as_str());
        push_spaces(&mut out, format.colsep);
    }
    out.append(format_field(&touched, format.touched_width, false).as_str());
    out.push('\n');
    let width = match format.line_width() {
        Some(w) => w,
        None => 0,
    };
    push_rule(&mut out, width);
    out.push('\n');
    assert(out@ =~= spec_header(*format));
    out
}

/// The offsets that the zone of this machine has at the times of last
/// change of the notes. Fails with `InvalidTimestamp` where the time of a
/// note cannot be read.
pub fn local_offsets(notes: &[Item]) -> (r: Result<Vec<i32>, Error>)
    ensures
        r is Ok <==> all_dated(views(notes@)),
        r is Ok ==> r->Ok_0@.len() == notes@.len() && all_valid(r->Ok_0@),
        r is Err ==> r->Err_0@ is InvalidTimestamp,
{
    let mut offsets: Vec<i32> = Vec::new();
    let mut i: usize = 0;
    while i < notes.len()
        invariant
            i <= notes.len(),
            offsets.len() == i,
            all_valid(offsets@),
            forall|j: int|
                0 <= j < i ==> spec_parse_last_touched(#[trigger] views(notes@)[j].last_touched)
                    is Some,
        decreases notes.len() - i,
    {
        proof {
            assert(views(notes@)[i as int] == notes[i as int]@);
        }
        match local_offset_of(notes[i].last_touched.as_str()) {
            Ok(offset) => {
                offsets.push(offset);
            },
            Err(e) => {
                assert(spec_parse_last_touched(views(notes@)[i as int].last_touched) is None);
                return Err(e);
            },
        }
        i += 1;
    }
    Ok(offsets)
}

/// The text of the list of `notes`, in UTF-8, on a console of
/// `console_width` columns, with the time of last change of the note at
/// `i` shown at `offsets[i]` seconds east of UTC. Fails where there is not
/// one offset of a zone for each note or a line would be wider than a
/// `usize` can say (`InvalidArgument`), and where the time of last change
/// of a note cannot be read (`InvalidTimestamp`).
pub fn print_notes_at(notes: &[Item], flags: BoolFlags, console_width: usize, offsets: &[i32]) -> (r:
    Result<Vec<u8>, Error>)
    ensures
        r is Ok <==> offsets@.len() == notes@.len() && all_valid(offsets@) && all_dated(
            views(notes@),
        ) && spec_full_line_width(views(notes@), flags.condensed, flags.search_body) <= usize::MAX,
        r is Ok ==> exists|format: LineFormat|
            #![trigger spec_list(views(notes@), format, flags, offsets@)]
            format.is_layout_of(
                views(notes@),
                flags.condensed,
                flags.search_body,
                console_width as nat,
            ) && r->Ok_0@ == spec_list(views(notes@), format, flags, offsets@),
        r is Err ==> r->Err_0@ is InvalidArgument || r->Err_0@ is InvalidTimestamp,
{
    if offsets.len() != notes.len() {
        return Err(Error::InvalidArgument("there is not one offset for each note".to_owned()));
    }
    let mut v: usize = 0;
    while v < offsets.len()
        invariant
            v <= offsets.len(),
            forall|j: int| 0 <= j < v ==> valid_offset(#[trigger] offsets@[j]),
        decreases offsets.len() - v,
    {
        if offsets[v] <= -86_400 || offsets[v] >= 86_400 {
            return Err(Error::InvalidArgument("the offset from UTC is a day or more".to_owned()));
        }
        v += 1;
    }
    let format = match LineFormat::new(notes, flags.condensed, flags.search_body, console_width) {
        Ok(format) => format,
        Err(e) => {
            return Err(e);
        },
    };
    proof {
        lemma_title_width_bound(
            views(notes@),
            flags.condensed,
            flags.search_body,
            console_width as nat,
        );
    }
    let mut out: Vec<u8> = Vec::new();
    if !flags.condensed {
        let head = header(&format);
        let mut bytes = head.as_str().as_bytes_vec();
        out.append(&mut bytes);
    }
    let ghost start = out@;
    let mut i: usize = 0;
    proof {
        assert(views(notes@).take(0) =~= Seq::<ItemView>::empty());
        assert(out@ =~= start + spec_lines(
            views(notes@).take(0),
            format,
            flags.search_body,
            offsets@.take(0),
        ));
    }
    while i < notes.len()
        invariant
            i <= notes.len(),
            offsets@.len() == notes@.len(),
            all_valid(offsets@),
            forall|j: int|
                0 <= j < i ==> spec_parse_last_touched(#[trigger] views(notes@)[j].last_touched)
                    is Some,
            out@ == start + spec_lines(
                views(notes@).take(i as int),
                format,
                flags.search_body,
                offsets@.take(i as int),
            ),
        decreases notes.len() - i,
    {
        let ghost before = out@;
        proof {
            assert(views(notes@)[i as int] == notes[i as int]@);
            assert(views(notes@).take(i + 1).drop_last() =~= views(notes@).take(i as int));
            assert(offsets@.take(i + 1).drop_last() =~= offsets@.take(i as int));
            assert(views(notes@).take(i + 1).last() == notes[i as int]@);
            assert(offsets@.take(i + 1).last() == offsets@[i as int]);
        }
        match notes[i].write_at_offset(&mut out, &format, flags.search_body, offsets[i]) {
            Ok(()) => {},
            Err(e) => {
                assert(valid_offset(offsets@[i as int]));
                assert(spec_parse_last_touched(views(notes@)[i as int].last_touched) is None);
                return Err(e);
            },
        }
        i += 1;
        proof {
            assert(out@ =~= start + spec_lines(
                views(notes@).take(i as int),
                format,
                flags.search_body,
                offsets@.take(i as int),
            ));
        }
    }
    proof {
        assert(views(notes@).take(notes.len() as int) =~= views(notes@));
        assert(offsets@.take(notes.len() as int) =~= offsets@);
        assert(out@ == spec_list(views(notes@), format, flags, offsets@));
    }
    Ok(out)
}

/// Whether `text` is the list of `notes`: the text under the layout of the
/// notes that the list shows, each with its time of last change at some
/// offset that a zone can have.
pub open spec fn is_list_of(
    text: Seq<u8>,
    notes: Seq<ItemView>,
    limit: usize,
    flags: BoolFlags,
    status: Option<Status>,
    console_width: nat,
) -> bool {
    exists|shown: Seq<ItemView>, format: LineFormat, offsets: Seq<i32>|
        #![trigger spec_list(shown, format, flags, offsets)]
        {
            &&& is_selection(shown, notes, limit, flags, status)
            &&& format.is_layout_of(shown, flags.condensed, flags.search_body, console_width)
            &&& offsets.len() == shown.len()
            &&& all_valid(offsets)
            &&& text == spec_list(shown, format, flags, offsets)
        }
}

/// Whether the list of `notes` can be shown as a text: the times of last
/// change by which it is sorted can be read, and so can those of the notes
/// that it shows, whose lines are no wider than a `usize` can say.
pub open spec fn can_be_listed(
    notes: Seq<ItemView>,
    limit: usize,
    flags: BoolFlags,
    status: Option<Status>,
) -> bool {
    &&& !flags.datesort || all_dated(notes.filter(has_status(status)))
    &&& forall|shown: Seq<ItemView>| #[trigger]
        is_selection(shown, notes, limit, flags, status) ==> all_dated(shown)
            && spec_full_line_width(shown, flags.condensed, flags.search_body) <= usize::MAX
}

/// The text of the list of `notes`, in UTF-8, as a console of
/// `console_width` columns shows it in the zone of this machine: the notes
/// with the status asked for, sorted, turned round and cut to `limit` as
/// the flags say. Fails where a time of last change that is needed cannot
/// be read (`InvalidTimestamp`) and where a line would be wider than a
/// `usize` can say (`InvalidArgument`).
pub fn sorted_print(
    notes: &[Item],
    limit: usize,
    flags: BoolFlags,
    status: Option<Status>,
    console_width: usize,
) -> (r: Result<Vec<u8>, Error>)
    ensures
        r is Ok <==> can_be_listed(views(notes@), limit, flags, status),
        r is Ok ==> is_list_of(r->Ok_0@, views(notes@), limit, flags, status, console_width as nat),
        r is Err ==> r->Err_0@ is InvalidArgument || r->Err_0@ is InvalidTimestamp,
{
    let shown = match select_notes(notes, limit, flags, status) {
        Ok(shown) => shown,
        Err(e) => {
            return Err(e);
        },
    };
    proof {
        assert forall|other: Seq<ItemView>| #[trigger]
            is_selection(other, views(notes@), limit, flags, status) implies other == views(
            shown@,
        ) by {
            lemma_selection_is_unique(other, views(shown@), views(notes@), limit, flags, status);
        }
    }
    let offsets = match local_offsets(shown.as_slice()) {
        Ok(offsets) => offsets,
        Err(e) => {
            return Err(e);
        },
    };
    match print_notes_at(shown.as_slice(), flags, console_width, offsets.as_slice()) {
        Ok(text) => Ok(text),
        Err(e) => Err(e),
    }
}

} // verus!
