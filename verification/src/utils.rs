//! Timestamps, answers, digests and the layout of one field.

use vstd::prelude::*;
use vstd::string::StrSliceExecFns;
use vstd::string::StringExecFns;
use regex::Regex;
use time::OffsetDateTime;
use time::UtcOffset;
use crate::errors::{Error, ErrorView};
use crate::item::Status;
use crate::text::{chars_of, push_spaces, spaces, str_eq, string_of};

verus! {

/// The format in which a note's time of last change is stored.
pub const DATEFMT: &'static str = "%F %T %z";

/// The format in which a time of last change is shown.
pub const DATEFMT_SHORT: &'static str = "%F %T";

/// Seconds since the Unix epoch are handled between these two bounds, which
/// lie within the years that the `time` crate can represent.
pub const TIME_LIMIT: i64 = 1_000_000_000_000;

/// What `time::OffsetDateTime::parse` makes of `text` under `format`: the
/// moment it denotes, in seconds since the Unix epoch, or `None` where the
/// text does not follow the format or names no real date or time.
pub uninterp spec fn parsed_unix_time(text: Seq<char>, format: Seq<char>) -> Option<i64>;

/// What `time::OffsetDateTime::format` writes for the moment `unix` seconds
/// after the Unix epoch, seen at `offset` seconds east of UTC, under `format`.
pub uninterp spec fn formatted_time(unix: i64, offset: i32, format: Seq<char>) -> Seq<char>;

/// Whether `format` is one of the two formats of this library.
pub open spec fn known_format(format: Seq<char>) -> bool {
    format == DATEFMT@ || format == DATEFMT_SHORT@
}

/// Whether the text opens with a sign, which would announce a year of more
/// than four digits.
pub open spec fn has_signed_year(text: Seq<char>) -> bool {
    text.len() > 0 && (text[0] == '+' || text[0] == '-')
}

/// Whether a moment lies within the bounds that are handled.
pub open spec fn time_in_range(unix: i64) -> bool {
    -TIME_LIMIT <= unix <= TIME_LIMIT
}

/// Whether `offset` is a number of seconds that a zone can be away from UTC:
/// less than a day, either way.
pub open spec fn valid_offset(offset: i32) -> bool {
    -86_400 < offset < 86_400
}

/// Calls `time::OffsetDateTime::parse` on `text` with the format `format`
/// and hands back the Unix timestamp of what was parsed. The result is named,
/// not described. Texts with a signed year are left out, since the parser
/// panics on some years of six digits.
#[verifier::external_body]
fn parse_time(text: &str, format: &str) -> (r: Option<i64>)
    requires
        format@ == DATEFMT@,
        !has_signed_year(text@),
    ensures
        r == parsed_unix_time(text@, format@),
{
    match OffsetDateTime::parse(text, format) {
        Ok(t) => Some(t.unix_timestamp()),
        Err(_) => None,
    }
}

/// Calls `time::OffsetDateTime::format` on the moment `unix`, moved to the
/// offset `offset`, with the format `format`. The result is named, not
/// described. The bounds keep the date within the years the crate accepts.
#[verifier::external_body]
fn format_time(unix: i64, offset: i32, format: &str) -> (r: String)
    requires
        known_format(format@),
        time_in_range(unix),
        valid_offset(offset),
    ensures
        r@ == formatted_time(unix, offset, format@),
{
    OffsetDateTime::from_unix_timestamp(unix).to_offset(UtcOffset::seconds(offset)).format(format)
}

/// Calls `time::OffsetDateTime::now_local` and hands back the moment as a
/// Unix timestamp, with the offset of the local zone in seconds. Nothing is
/// promised of either number.
#[allow(deprecated)]
#[verifier::external_body]
fn local_now() -> (r: (i64, i32))
{
    let t = OffsetDateTime::now_local();
    (t.unix_timestamp(), t.offset().as_seconds())
}

/// Calls `time::UtcOffset::local_offset_at` for the moment `unix` and hands
/// back the offset in seconds. Nothing is promised of the number: it depends
/// on the zone of the machine.
#[allow(deprecated)]
#[verifier::external_body]
fn local_offset_at(unix: i64) -> (r: i32)
    requires
        time_in_range(unix),
{
    UtcOffset::local_offset_at(OffsetDateTime::from_unix_timestamp(unix)).as_seconds()
}

/// The moment that a stored time of last change denotes.
pub open spec fn spec_parse_last_touched(text: Seq<char>) -> Option<i64> {
    if has_signed_year(text) {
        None
    } else {
        match parsed_unix_time(text, DATEFMT@) {
            Some(unix) => if time_in_range(unix) {
                Some(unix)
            } else {
                None
            },
            None => None,
        }
    }
}

/// How a stored time of last change reads at `offset` seconds east of UTC.
pub open spec fn spec_localize(text: Seq<char>, offset: i32) -> Option<Seq<char>> {
    match spec_parse_last_touched(text) {
        Some(unix) => Some(formatted_time(unix, offset, DATEFMT_SHORT@)),
        None => None,
    }
}

/// Reads a stored time of last change as seconds since the Unix epoch, and
/// fails with `InvalidTimestamp`, which holds the text, where it cannot be
/// read.
pub fn parse_last_touched(lt: &str) -> (r: Result<i64, Error>)
    ensures
        match r {
            Ok(unix) => spec_parse_last_touched(lt@) == Some(unix),
            Err(e) => spec_parse_last_touched(lt@) is None && e@ == ErrorView::InvalidTimestamp(
                lt@,
            ),
        },
{
    let chars = chars_of(lt);
    if chars.len() > 0 && (chars[0] == '+' || chars[0] == '-') {
        return Err(Error::InvalidTimestamp(lt.to_owned()));
    }
    match parse_time(lt, DATEFMT) {
        Some(unix) => {
            if -TIME_LIMIT <= unix && unix <= TIME_LIMIT {
                Ok(unix)
            } else {
                Err(Error::InvalidTimestamp(lt.to_owned()))
            }
        },
        None => Err(Error::InvalidTimestamp(lt.to_owned())),
    }
}

/// Shows a stored time of last change at `offset` seconds east of UTC.
/// Fails with `InvalidArgument` where `offset` is a day or more, and with
/// `InvalidTimestamp` where the text cannot be read.
pub fn localize_at(lt: &str, offset: i32) -> (r: Result<String, Error>)
    ensures
        match r {
            Ok(shown) => valid_offset(offset) && spec_localize(lt@, offset) == Some(shown@),
            Err(e) => if valid_offset(offset) {
                spec_parse_last_touched(lt@) is None && e@ == ErrorView::InvalidTimestamp(lt@)
            } else {
                e@ is InvalidArgument
            },
        },
{
    if offset <= -86_400 || offset >= 86_400 {
        return Err(Error::InvalidArgument("the offset from UTC is a day or more".to_owned()));
    }
    match parse_last_touched(lt) {
        Ok(unix) => Ok(format_time(unix, offset, DATEFMT_SHORT)),
        Err(e) => Err(e),
    }
}

/// The offset of this machine's zone at the moment `unix`, in seconds east
/// of UTC; UTC itself where the machine reports a day or more.
fn local_offset_or_utc(unix: i64) -> (offset: i32)
    requires
        time_in_range(unix),
    ensures
        valid_offset(offset),
        exists|reported: i32| offset == #[trigger] spec_offset_or_utc(reported),
{
    let reported = local_offset_at(unix);
    let offset = offset_or_utc(reported);
    assert(offset == spec_offset_or_utc(reported));
    offset
}

/// The offset that the zone of this machine has at a stored time of last
/// change, in seconds east of UTC, or 0 where the machine reports an
/// offset of a day or more. Fails with `InvalidTimestamp` where the text
/// cannot be read.
pub fn local_offset_of(lt: &str) -> (r: Result<i32, Error>)
    ensures
        match r {
            Ok(offset) => valid_offset(offset) && spec_parse_last_touched(lt@) is Some,
            Err(e) => spec_parse_last_touched(lt@) is None && e@ == ErrorView::InvalidTimestamp(
                lt@,
            ),
        },
{
    match parse_last_touched(lt) {
        Ok(unix) => Ok(local_offset_or_utc(unix)),
        Err(e) => Err(e),
    }
}

/// Shows a stored time of last change in the zone of this machine. Fails
/// with `InvalidTimestamp` where the text cannot be read.
pub fn localize_last_touched_string(lt: &str) -> (r: Result<String, Error>)
    ensures
        match r {
            Ok(shown) => exists|offset: i32|
                valid_offset(offset) && #[trigger] spec_localize(lt@, offset) == Some(shown@),
            Err(e) => spec_parse_last_touched(lt@) is None && e@ == ErrorView::InvalidTimestamp(
                lt@,
            ),
        },
{
    match parse_last_touched(lt) {
        Ok(unix) => {
            let offset = local_offset_or_utc(unix);
            let shown = format_time(unix, offset, DATEFMT_SHORT);
            assert(spec_localize(lt@, offset) == Some(shown@));
            Ok(shown)
        },
        Err(e) => Err(e),
    }
}

/// The moment at which it is called, in the format of a stored time of last
/// change and in the zone of this machine: what `timestamp_at` makes of the
/// moment and the offset that the clock of the machine reports.
pub fn current_timestamp() -> (r: Option<String>)
    ensures
        exists|unix: i64, offset: i32| #[trigger] is_timestamp_at(r, unix, offset),
{
    let (unix, offset) = local_now();
    let now = timestamp_at(unix, offset);
    assert(is_timestamp_at(now, unix, offset));
    now
}

/// The offset that counts where the machine reports `reported` seconds east
/// of UTC: the reported one, or UTC where that is a day or more.
pub open spec fn spec_offset_or_utc(reported: i32) -> i32 {
    if valid_offset(reported) {
        reported
    } else {
        0
    }
}

/// The offset that counts where the machine reports `reported`.
pub fn offset_or_utc(reported: i32) -> (offset: i32)
    ensures
        offset == spec_offset_or_utc(reported),
{
    if -86_400 < reported && reported < 86_400 {
        reported
    } else {
        0
    }
}

/// The stored form of the moment `unix` seconds after the Unix epoch, seen
/// at `offset` seconds east of UTC; none for a moment outside the years
/// that are handled or an offset of a day or more.
pub open spec fn spec_timestamp_at(unix: i64, offset: i32) -> Option<Seq<char>> {
    if time_in_range(unix) && valid_offset(offset) {
        Some(formatted_time(unix, offset, DATEFMT@))
    } else {
        None
    }
}

/// Whether `stamp` is the stored form of the moment `unix` at `offset`.
pub open spec fn is_timestamp_at(stamp: Option<String>, unix: i64, offset: i32) -> bool {
    match stamp {
        Some(text) => spec_timestamp_at(unix, offset) == Some(text@),
        None => spec_timestamp_at(unix, offset) is None,
    }
}

/// The moment `unix` seconds after the Unix epoch, seen at `offset` seconds
/// east of UTC, in the format of a stored time of last change. `None` for
/// a moment outside the years that are handled and for an offset of a day
/// or more.
pub fn timestamp_at(unix: i64, offset: i32) -> (r: Option<String>)
    ensures
        is_timestamp_at(r, unix, offset),
{
    if -TIME_LIMIT <= unix && unix <= TIME_LIMIT && -86_400 < offset && offset < 86_400 {
        Some(format_time(unix, offset, DATEFMT))
    } else {
        None
    }
}

/// The three full stops that end a title that was cut.
pub open spec fn ellipsis() -> Seq<char> {
    seq!['.', '.', '.']
}

/// A value laid out in a column of `width` characters. A value that fits is
/// followed by blanks up to the width. One that does not fit is cut to the
/// width, unless `truncate` asks for a title's treatment: a title that is
/// more than three characters too long, in a column of three or more, keeps
/// its first `width - 3` characters and ends in an ellipsis; any other title
/// that is too long stays whole.
pub open spec fn spec_format_field(value: Seq<char>, width: nat, truncate: bool) -> Seq<char> {
    if value.len() <= width {
        value + spaces((width - value.len()) as nat)
    } else if !truncate {
        value.take(width as int)
    } else if width >= 3 && value.len() > width + 3 {
        value.take(width - 3) + ellipsis()
    } else {
        value
    }
}

/// Lays `value` out in a column of `width` characters, as
/// `spec_format_field` says.
pub fn format_field(value: &String, width: usize, truncate: bool) -> (r: String)
    ensures
        r@ == spec_format_field(value@, width as nat, truncate),
{
    let chars = chars_of(value.as_str());
    let len: usize = chars.len();
    if len <= width {
        let mut out = string_of(&chars, 0, len);
        assert(out@ =~= value@);
        push_spaces(&mut out, width - len);
        out
    } else if !truncate {
        string_of(&chars, 0, width)
    } else if width >= 3 && len - width > 3 {
        let mut out = string_of(&chars, 0, width - 3);
        out.push('.');
        out.push('.');
        out.push('.');
        assert(out@ =~= value@.take(width - 3) + ellipsis());
        out
    } else {
        let out = string_of(&chars, 0, len);
        assert(out@ =~= value@);
        out
    }
}

/// A title that is more than three characters too long for a column of
/// three or more is shown in exactly the width of the column: its first
/// characters, then an ellipsis of three characters.
pub proof fn lemma_long_title_is_cut(title: Seq<char>, width: nat)
    requires
        width >= 3,
        title.len() > width + 3,
    ensures
        spec_format_field(title, width, true).len() == width,
        spec_format_field(title, width, true).subrange(width - 3, width as int) == ellipsis(),
        spec_format_field(title, width, true).take(width - 3) == title.take(width - 3),
{
    let shown = spec_format_field(title, width, true);
    assert(shown == title.take(width - 3) + ellipsis());
    assert(shown.subrange(width - 3, width as int) =~= ellipsis());
    assert(shown.take(width - 3) =~= title.take(width - 3));
}

/// A title that is one to three characters too long is shown whole.
pub proof fn lemma_slightly_long_title_is_kept(title: Seq<char>, width: nat)
    requires
        width < title.len() <= width + 3,
    ensures
        spec_format_field(title, width, true) == title,
{
}

/// Whether `regex::Regex::new` accepts the pattern.
pub uninterp spec fn pattern_compiles(pattern: Seq<char>) -> bool;

/// Whether `regex::Regex::is_match` finds the pattern, once compiled,
/// anywhere in the text.
pub uninterp spec fn pattern_matches(pattern: Seq<char>, text: Seq<char>) -> bool;

/// Calls `regex::Regex::new` on the pattern and hands back what the crate
/// says of a pattern that it refuses. Whether it accepts the pattern is
/// named, not described; nothing is promised of the message.
#[verifier::external_body]
fn pattern_error(pattern: &str) -> (r: Option<String>)
    ensures
        r is None <==> pattern_compiles(pattern@),
{
    match Regex::new(pattern) {
        Ok(_) => None,
        Err(e) => Some(e.to_string()),
    }
}

/// Compiles the pattern with `regex::Regex::new` and calls
/// `regex::Regex::is_match` on the text. The result is named, not
/// described. Only for patterns that compile.
#[verifier::external_body]
pub(crate) fn pattern_is_match(pattern: &str, text: &str) -> (r: bool)
    requires
        pattern_compiles(pattern@),
    ensures
        r == pattern_matches(pattern@, text@),
{
    match Regex::new(pattern) {
        Ok(re) => re.is_match(text),
        Err(_) => false,
    }
}

/// Fails with `InvalidPattern`, which holds the message of the `regex`
/// crate, where the pattern does not compile.
pub fn check_pattern(pattern: &str) -> (r: Result<(), Error>)
    ensures
        r is Ok <==> pattern_compiles(pattern@),
        r is Err ==> r->Err_0@ is InvalidPattern,
{
    match pattern_error(pattern) {
        None => Ok(()),
        Some(message) => Err(Error::InvalidPattern(message)),
    }
}

/// Whether the pattern is found in the text. Fails with `InvalidPattern`
/// where the pattern does not compile.
pub fn matches_pattern(pattern: &str, text: &str) -> (r: Result<bool, Error>)
    ensures
        match r {
            Ok(found) => pattern_compiles(pattern@) && found == pattern_matches(pattern@, text@),
            Err(e) => !pattern_compiles(pattern@) && e@ is InvalidPattern,
        },
{
    match check_pattern(pattern) {
        Ok(()) => Ok(pattern_is_match(pattern, text)),
        Err(e) => Err(e),
    }
}

/// The status that the three status flags ask for; none where no flag is
/// set. More than one flag is a contradiction.
pub open spec fn spec_extract_status(none: bool, started: bool, urgent: bool) -> Option<
    Option<Status>,
> {
    if none && !started && !urgent {
        Some(Some(Status::Blank))
    } else if !none && started && !urgent {
        Some(Some(Status::Started))
    } else if !none && !started && urgent {
        Some(Some(Status::Urgent))
    } else if !none && !started && !urgent {
        Some(None)
    } else {
        None
    }
}

/// The status that the three status flags ask for. Fails with
/// `InvalidArgument` where more than one flag is set.
pub fn extract_status(none: bool, started: bool, urgent: bool) -> (r: Result<Option<Status>, Error>)
    ensures
        match r {
            Ok(status) => spec_extract_status(none, started, urgent) == Some(status),
            Err(e) => spec_extract_status(none, started, urgent) is None && e@ is InvalidArgument,
        },
{
    if none && !started && !urgent {
        Ok(Some(Status::Blank))
    } else if !none && started && !urgent {
        Ok(Some(Status::Started))
    } else if !none && !started && urgent {
        Ok(Some(Status::Urgent))
    } else if !none && !started && !urgent {
        Ok(None)
    } else {
        Err(Error::InvalidArgument("more than one status was given".to_owned()))
    }
}

/// Whether `answer` is one of the five ways to say yes.
pub open spec fn says_yes(answer: Seq<char>) -> bool {
    answer == "y"@ || answer == "Y"@ || answer == "yes"@ || answer == "YES"@ || answer == "Yes"@
}

/// Whether `answer` is one of the five ways to say no.
pub open spec fn says_no(answer: Seq<char>) -> bool {
    answer == "n"@ || answer == "N"@ || answer == "no"@ || answer == "NO"@ || answer == "No"@
}

/// What an answer to a yes-or-no question says; `None` for an answer that
/// says neither, after which the question is asked again. The answer is
/// taken without the blanks around it.
pub fn get_yn_input(answer: &str) -> (r: Option<bool>)
    ensures
        r == if says_yes(answer@) {
            Some(true)
        } else if says_no(answer@) {
            Some(false)
        } else {
            None::<bool>
        },
{
    if str_eq(answer, "y") || str_eq(answer, "Y") || str_eq(answer, "yes") || str_eq(answer, "YES")
        || str_eq(answer, "Yes") {
        Some(true)
    } else if str_eq(answer, "n") || str_eq(answer, "N") || str_eq(answer, "no") || str_eq(
        answer,
        "NO",
    ) || str_eq(answer, "No") {
        Some(false)
    } else {
        None
    }
}

/// The size of a terminal window, in rows and columns of characters; both
/// are 0 where the size could not be asked for.
#[derive(Clone, Copy, Debug, PartialEq, Eq, Structural)]
pub struct Winsize {
    pub ws_row: u16,
    pub ws_col: u16,
}

/// The width of the terminal, or 0 where the window reports no rows or no
/// columns.
pub fn termsize(window: Winsize) -> (r: usize)
    ensures
        r == if window.ws_col == 0 || window.ws_row == 0 {
            0
        } else {
            window.ws_col as int
        },
{
    if window.ws_col == 0 || window.ws_row == 0 {
        0
    } else {
        window.ws_col as usize
    }
}

/// The start value of the digest.
pub const FINGERPRINT_BASIS: u64 = 0xcbf2_9ce4_8422_2325;

/// The factor of the digest.
pub const FINGERPRINT_PRIME: u64 = 0x0000_0100_0000_01b3;

/// One step of the digest: the byte is mixed into the state, and the state
/// is multiplied by the factor, modulo 2^64.
pub open spec fn fingerprint_step(state: u64, byte: u8) -> u64 {
    (((state ^ (byte as u64)) as int * FINGERPRINT_PRIME as int) % 0x1_0000_0000_0000_0000) as u64
}

/// The digest of a file's bytes: the 64-bit FNV-1a hash.
pub open spec fn spec_fingerprint(bytes: Seq<u8>) -> u64
    decreases bytes.len(),
{
    if bytes.len() == 0 {
        FINGERPRINT_BASIS
    } else {
        fingerprint_step(spec_fingerprint(bytes.drop_last()), bytes.last())
    }
}

/// The fingerprint of a profile file, from the bytes of the file.
pub fn profile_fingerprint(bytes: &[u8]) -> (r: u64)
    ensures
        r == spec_fingerprint(bytes@),
{
    let mut state: u64 = FINGERPRINT_BASIS;
    let mut i: usize = 0;
    assert(bytes@.take(0) =~= Seq::<u8>::empty());
    while i < bytes.len()
        invariant
            i <= bytes.len(),
            state == spec_fingerprint(bytes@.take(i as int)),
        decreases bytes.len() - i,
    {
        let mixed: u64 = state ^ (bytes[i] as u64);
        assert(mixed as int * FINGERPRINT_PRIME as int <= 0xffff_ffff_ffff_ffff * 0x0000_0100_0000_01b3)
            by (nonlinear_arith)
            requires
                0 <= mixed as int <= 0xffff_ffff_ffff_ffff,
                FINGERPRINT_PRIME as int == 0x0000_0100_0000_01b3,
        ;
        let product: u128 = (mixed as u128) * (FINGERPRINT_PRIME as u128);
        state = (product % 0x1_0000_0000_0000_0000u128) as u64;
        proof {
            assert(bytes@.take(i + 1).drop_last() =~= bytes@.take(i as int));
            assert(bytes@.take(i + 1).last() == bytes@[i as int]);
        }
        i += 1;
    }
    assert(bytes@.take(bytes.len() as int) =~= bytes@);
    state
}

/// The name of the file that holds the profile `name`.
pub fn profile_file_name(name: &str) -> (r: String)
    ensures
        r@ == name@ + ".json"@,
{
    let mut out = name.to_owned();
    out.append(".json");
    out
}

/// Whether `text` ends in `end`.
pub open spec fn ends_in(text: Seq<char>, end: Seq<char>) -> bool {
    end.len() <= text.len() && text.subrange(text.len() - end.len(), text.len() as int) == end
}

/// The name of the profile that a file of the folder holds: the name of
/// the file without the ending `.json`. A file with another ending holds
/// no profile.
pub fn profile_of_file(file_name: &str) -> (r: Option<String>)
    ensures
        match r {
            Some(name) => file_name@ == name@ + ".json"@,
            None => !ends_in(file_name@, ".json"@),
        },
{
    let chars = chars_of(file_name);
    let ending = chars_of(".json");
    if chars.len() < ending.len() {
        return None;
    }
    let stem: usize = chars.len() - ending.len();
    let mut i: usize = 0;
    while i < ending.len()
        invariant
            i <= ending.len(),
            stem + ending.len() == chars.len(),
            chars@ == file_name@,
            ending@ == ".json"@,
            forall|k: int| 0 <= k < i ==> chars@[stem + k] == ending@[k],
        decreases ending.len() - i,
    {
        if chars[stem + i] != ending[i] {
            proof {
                let tail = file_name@.subrange(
                    file_name@.len() - ".json"@.len(),
                    file_name@.len() as int,
                );
                assert(tail[i as int] == chars@[stem + i]);
                assert(".json"@[i as int] == ending@[i as int]);
                assert(tail != ".json"@);
            }
            return None;
        }
        i += 1;
    }
    let name = string_of(&chars, 0, stem);
    assert(file_name@ =~= name@ + ".json"@);
    Some(name)
}

/// The folder of the profiles: the one that was given, or `.theca` in the
/// home directory where none was given. Fails with `NotFound` where none
/// was given and the home directory is not known.
pub fn find_profile_folder(profile_folder: &str, home: Option<&str>) -> (r: Result<String, Error>)
    ensures
        match r {
            Ok(folder) => if profile_folder@.len() > 0 {
                folder@ == profile_folder@
            } else {
                home is Some && folder@ == home->0@ + "/.theca"@
            },
            Err(e) => profile_folder@.len() == 0 && home is None && e@ is NotFound,
        },
{
    if profile_folder.unicode_len() > 0 {
        Ok(profile_folder.to_owned())
    } else {
        match home {
            Some(home) => {
                let mut out = home.to_owned();
                out.append("/.theca");
                Ok(out)
            },
            None => Err(Error::NotFound("the home directory".to_owned())),
        }
    }
}

} // verus!
