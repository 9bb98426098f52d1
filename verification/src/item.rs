//! A note, its status, and the line that shows it.

use vstd::prelude::*;
use vstd::string::StrSliceExecFns;
use vstd::string::StringExecFns;
use vstd::utf8::encode_utf8;
use crate::errors::{Error, ErrorView};
use crate::lineformat::LineFormat;
use crate::text::{chars_of, decimal, decimal_string, push_spaces, spaces, string_of};
use crate::utils::{
    format_field, localize_at, localize_last_touched_string, spec_format_field, spec_localize,
    spec_parse_last_touched, valid_offset,
};

verus! {

/// How far the work on a note has come.
#[derive(Clone, Copy, PartialEq, Eq, Debug, Structural)]
pub enum Status {
    Blank,
    Started,
    Urgent,
}

impl Status {
    /// The text that stands for the status in a stored profile and in the
    /// long view of a note: nothing for `Blank`, else the status's name.
    pub open spec fn label(self) -> Seq<char> {
        match self {
            Status::Blank => ""@,
            Status::Started => "Started"@,
            Status::Urgent => "Urgent"@,
        }
    }

    /// The name of the status, as the status column of a list shows it.
    pub open spec fn name(self) -> Seq<char> {
        match self {
            Status::Blank => "Blank"@,
            Status::Started => "Started"@,
            Status::Urgent => "Urgent"@,
        }
    }

    /// The place of the status among the three: 0, 1 or 2.
    pub open spec fn ordinal(self) -> nat {
        match self {
            Status::Blank => 0,
            Status::Started => 1,
            Status::Urgent => 2,
        }
    }

    /// The stored text of the status.
    pub fn to_string(&self) -> (r: String)
        ensures
            r@ == self.label(),
    {
        match self {
            Status::Blank => "".to_owned(),
            Status::Started => "Started".to_owned(),
            Status::Urgent => "Urgent".to_owned(),
        }
    }

    /// The name of the status.
    pub fn debug_name(&self) -> (r: String)
        ensures
            r@ == self.name(),
    {
        match self {
            Status::Blank => "Blank".to_owned(),
            Status::Started => "Started".to_owned(),
            Status::Urgent => "Urgent".to_owned(),
        }
    }

    /// The number under which the status is stored.
    pub fn index(&self) -> (r: usize)
        ensures
            r == self.ordinal(),
    {
        match self {
            Status::Blank => 0,
            Status::Started => 1,
            Status::Urgent => 2,
        }
    }

    /// The status stored under the number `i`, if there is one.
    pub fn from_index(i: usize) -> (r: Option<Status>)
        ensures
            match r {
                Some(s) => s.ordinal() == i,
                None => i > 2,
            },
    {
        if i == 0 {
            Some(Status::Blank)
        } else if i == 1 {
            Some(Status::Started)
        } else if i == 2 {
            Some(Status::Urgent)
        } else {
            None
        }
    }
}

/// A note within a profile.
#[derive(Clone, Debug)]
pub struct Item {
    pub id: usize,
    pub title: String,
    pub status: Status,
    pub body: String,
    pub last_touched: String,
}

/// A note with each text taken as the sequence of its characters.
pub struct ItemView {
    pub id: usize,
    pub title: Seq<char>,
    pub status: Status,
    pub body: Seq<char>,
    pub last_touched: Seq<char>,
}

impl View for Item {
    type V = ItemView;

    open spec fn view(&self) -> ItemView {
        ItemView {
            id: self.id,
            title: self.title@,
            status: self.status,
            body: self.body@,
            last_touched: self.last_touched@,
        }
    }
}

/// The notes of `items`, each by its view.
pub open spec fn views(items: Seq<Item>) -> Seq<ItemView> {
    Seq::new(items.len(), |i: int| items[i]@)
}

/// The marker that follows the title of a note with a body.
pub open spec fn body_marker() -> Seq<char> {
    seq![' ', '(', '+', ')']
}

/// The characters of `s` after its last line feed.
pub open spec fn open_line(s: Seq<char>) -> Seq<char>
    decreases s.len(),
{
    if s.len() == 0 {
        Seq::empty()
    } else if s.last() == '\n' {
        Seq::empty()
    } else {
        open_line(s.drop_last()).push(s.last())
    }
}

/// A line without the carriage return that stood before its line feed.
pub open spec fn without_return(line: Seq<char>) -> Seq<char> {
    if line.len() > 0 && line.last() == '\r' {
        line.drop_last()
    } else {
        line
    }
}

/// One line of a body as it is shown: a tab, the line, a line feed.
pub open spec fn indented(line: Seq<char>) -> Seq<char> {
    seq!['\t'] + line + seq!['\n']
}

/// The lines of `s` that a line feed ends, each shown by `indented`,
/// without the carriage return before the line feed, if there is one.
pub open spec fn closed_lines(s: Seq<char>) -> Seq<char>
    decreases s.len(),
{
    if s.len() == 0 {
        Seq::empty()
    } else if s.last() == '\n' {
        closed_lines(s.drop_last()) + indented(without_return(open_line(s.drop_last())))
    } else {
        closed_lines(s.drop_last())
    }
}

/// Every line of `body`, shown by `indented`. A line ends at a line feed or
/// at the end of the text; a last line that is empty is not shown.
pub open spec fn indented_lines(body: Seq<char>) -> Seq<char> {
    closed_lines(body) + if open_line(body).len() > 0 {
        indented(open_line(body))
    } else {
        Seq::empty()
    }
}

/// The width that the title has beside the marker of a body.
pub open spec fn marked_title_width(title_width: usize) -> nat {
    if title_width >= 4 {
        (title_width - 4) as nat
    } else {
        0
    }
}

/// The title column of a note: the title alone, or the title in a column
/// that is four narrower, and then the marker of a body.
pub open spec fn title_column(note: ItemView, format: LineFormat, search_body: bool) -> Seq<char> {
    if note.body.len() > 0 && !search_body {
        spec_format_field(note.title, marked_title_width(format.title_width), true)
            + spec_format_field(body_marker(), 4, false)
    } else {
        spec_format_field(note.title, format.title_width as nat, true)
    }
}

/// The status column with the separator that follows it, or nothing where
/// the layout has no status column.
pub open spec fn status_column(note: ItemView, format: LineFormat) -> Seq<char> {
    if format.status_width != 0 {
        spec_format_field(note.status.name(), format.status_width as nat, false) + spaces(
            format.colsep as nat,
        )
    } else {
        Seq::empty()
    }
}

/// The text that shows a note: id, title, status and time of last change in
/// columns, each followed by the separator but the last, then a line feed;
/// and, where bodies are searched, the lines of the body after it.
/// `touched` is the time of last change as it is to be shown.
pub open spec fn spec_line(
    note: ItemView,
    format: LineFormat,
    search_body: bool,
    touched: Seq<char>,
) -> Seq<char> {
    spec_format_field(decimal(note.id as nat), format.id_width as nat, false) + spaces(
        format.colsep as nat,
    ) + title_column(note, format, search_body) + spaces(format.colsep as nat) + status_column(
        note,
        format,
    ) + spec_format_field(touched, format.touched_width as nat, false) + seq!['\n'] + if search_body {
        indented_lines(note.body)
    } else {
        Seq::empty()
    }
}

/// Appends the lines of `body` to `out`, each after a tab and before a line
/// feed.
fn push_indented_lines(out: &mut String, body: &str)
    ensures
        final(out)@ == old(out)@ + indented_lines(body@),
{
    let chars = chars_of(body);
    let mut line: Vec<char> = Vec::new();
    let mut i: usize = 0;
    assert(chars@.take(0) =~= Seq::<char>::empty());
    assert(out@ =~= old(out)@ + closed_lines(chars@.take(0)));
    while i < chars.len()
        invariant
            i <= chars.len(),
            chars@ == body@,
            line@ == open_line(chars@.take(i as int)),
            out@ == old(out)@ + closed_lines(chars@.take(i as int)),
        decreases chars.len() - i,
    {
        let c = chars[i];
        proof {
            let next = chars@.take(i + 1);
            assert(next.drop_last() =~= chars@.take(i as int));
            assert(next.last() == c);
        }
        if c == '\n' {
            let mut end: usize = line.len();
            if end > 0 && line[end - 1] == '\r' {
                end = end - 1;
            }
            let shown = string_of(&line, 0, end);
            assert(shown@ =~= without_return(line@));
            let ghost before = out@;
            out.push('\t');
            out.append(shown.as_str());
            out.push('\n');
            assert(out@ =~= before + indented(shown@));
            line = Vec::new();
        } else {
            line.push(c);
        }
        i += 1;
        assert(out@ =~= old(out)@ + closed_lines(chars@.take(i as int)));
    }
    assert(chars@.take(chars.len() as int) =~= chars@);
    if line.len() > 0 {
        let shown = string_of(&line, 0, line.len());
        assert(shown@ =~= line@);
        let ghost before = out@;
        out.push('\t');
        out.append(shown.as_str());
        out.push('\n');
        assert(out@ =~= before + indented(shown@));
    }
    assert(out@ =~= old(out)@ + indented_lines(body@));
}

impl Item {
    /// A note with the same contents.
    pub fn duplicate(&self) -> (r: Item)
        ensures
            r@ == self@,
    {
        Item {
            id: self.id,
            title: self.title.clone(),
            status: self.status,
            body: self.body.clone(),
            last_touched: self.last_touched.clone(),
        }
    }

    /// The text that shows the note under the layout `line_format`, with
    /// `touched` as its time of last change.
    pub fn line(&self, line_format: &LineFormat, search_body: bool, touched: &str) -> (r: String)
        ensures
            r@ == spec_line(self@, *line_format, search_body, touched@),
    {
        let id_text = decimal_string(self.id);
        let mut out = format_field(&id_text, line_format.id_width, false);
        push_spaces(&mut out, line_format.colsep);
        if self.body.as_str().unicode_len() > 0 && !search_body {
            let room: usize = if line_format.title_width >= 4 {
                line_format.title_width - 4
            } else {
                0
            };
            out.append(format_field(&self.title, room, true).as_str());
            let mut marker = String::new();
            marker.push(' ');
            marker.push('(');
            marker.push('+');
            marker.push(')');
            assert(marker@ =~= body_marker());
            out.append(format_field(&marker, 4, false).as_str());
        } else {
            out.append(format_field(&self.title, line_format.title_width, true).as_str());
        }
        push_spaces(&mut out, line_format.colsep);
        if line_format.status_width != 0 {
            let name = self.status.debug_name();
            out.append(format_field(&name, line_format.status_width, false).as_str());
            push_spaces(&mut out, line_format.colsep);
        }
        let shown = touched.to_owned();
        out.append(format_field(&shown, line_format.touched_width, false).as_str());
        out.push('\n');
        if search_body {
            push_indented_lines(&mut out, self.body.as_str());
        }
        assert(out@ =~= spec_line(self@, *line_format, search_body, touched@));
        out
    }

    /// Writes the note as `spec_line` shows it, in UTF-8, at the end of
    /// `output`, with the time of last change moved to `offset` seconds east
    /// of UTC. Fails, and writes nothing, where `offset` is no offset of a
    /// zone or the note's time of last change cannot be read.
    pub fn write_at_offset(
        &self,
        output: &mut Vec<u8>,
        line_format: &LineFormat,
        search_body: bool,
        offset: i32,
    ) -> (r: Result<(), Error>)
        ensures
            r is Ok <==> valid_offset(offset) && spec_parse_last_touched(self.last_touched@)
                is Some,
            r is Ok ==> final(output)@ == old(output)@ + encode_utf8(
                spec_line(
                    self@,
                    *line_format,
                    search_body,
                    spec_localize(self.last_touched@, offset)->0,
                ),
            ),
            r is Err ==> final(output)@ == old(output)@,
            r is Err && valid_offset(offset) ==> r->Err_0@ == ErrorView::InvalidTimestamp(
                self.last_touched@,
            ),
            r is Err && !valid_offset(offset) ==> r->Err_0@ is InvalidArgument,
    {
        match localize_at(self.last_touched.as_str(), offset) {
            Ok(touched) => {
                let text = self.line(line_format, search_body, touched.as_str());
                let mut bytes = text.as_str().as_bytes_vec();
                output.append(&mut bytes);
                Ok(())
            },
            Err(e) => Err(e),
        }
    }

    /// Writes the note as `write_at_offset` does, with the offset that the
    /// zone of this machine has at the note's time of last change. Fails,
    /// and writes nothing, where that time cannot be read.
    pub fn write(&self, output: &mut Vec<u8>, line_format: &LineFormat, search_body: bool) -> (r:
        Result<(), Error>)
        ensures
            r is Ok <==> spec_parse_last_touched(self.last_touched@) is Some,
            r is Ok ==> exists|offset: i32|
                valid_offset(offset) && final(output)@ == old(output)@ + encode_utf8(
                    spec_line(
                        self@,
                        *line_format,
                        search_body,
                        #[trigger] spec_localize(self.last_touched@, offset)->0,
                    ),
                ),
            r is Err ==> final(output)@ == old(output)@ && r->Err_0@
                == ErrorView::InvalidTimestamp(self.last_touched@),
    {
        match localize_last_touched_string(self.last_touched.as_str()) {
            Ok(touched) => {
                let text = self.line(line_format, search_body, touched.as_str());
                let mut bytes = text.as_str().as_bytes_vec();
                output.append(&mut bytes);
                Ok(())
            },
            Err(e) => Err(e),
        }
    }
}

} // verus!
