use theca::errors::Error;
use theca::item::{Item, Status};
use theca::profile::{
    add_body_source, check_transfer, edit_body_source, editor_needs_consent, BodySource, Profile,
};
use theca::BoolFlags;

const NOW: &str = "2016-01-08 15:31:14 -0800";
const LATER: &str = "2016-07-08 15:31:14 -0800";

fn note(id: usize, title: &str, status: Status, body: &str) -> Item {
    Item {
        id,
        title: title.to_string(),
        status,
        body: body.to_string(),
        last_touched: NOW.to_string(),
    }
}

fn profile(notes: Vec<Item>) -> Profile {
    Profile { encrypted: false, notes }
}

fn ids(profile: &Profile) -> Vec<usize> {
    profile.notes.iter().map(|n| n.id).collect()
}

fn same(a: &Item, b: &Item) -> bool {
    a.id == b.id
        && a.title == b.title
        && a.status == b.status
        && a.body == b.body
        && a.last_touched == b.last_touched
}

#[test]
fn new_profile_is_empty() {
    let (p, fingerprint) = Profile::new(true);
    assert!(p.encrypted);
    assert!(p.notes.is_empty());
    assert_eq!(fingerprint, 0);
    assert!(p.is_well_formed());
    assert!(!Profile::new(false).0.encrypted);
}

#[test]
fn add_gives_the_first_note_the_id_one() {
    let (mut p, _) = Profile::new(false);
    let id = p.add_note("first", &["body".to_string()], None, BodySource::Literal, "", NOW);
    assert_eq!(id, Ok(1));
    assert_eq!(p.notes.len(), 1);
    assert!(same(&p.notes[0], &note(1, "first", Status::Blank, "body")));
}

#[test]
fn add_gives_the_next_note_one_more_than_the_largest_id() {
    let mut p = profile(vec![note(2, "a", Status::Blank, ""), note(5, "b", Status::Blank, ""), note(9, "c", Status::Blank, "")]);
    let id = p.add_note("d", &[], Some(Status::Urgent), BodySource::Literal, "", LATER);
    assert_eq!(id, Ok(10));
    assert_eq!(ids(&p), vec![2, 5, 9, 10]);
    assert_eq!(p.notes[3].status, Status::Urgent);
    assert_eq!(p.notes[3].body, "");
    assert_eq!(p.notes[3].last_touched, LATER);
    assert!(p.is_well_formed());
}

#[test]
fn add_strips_the_line_feeds_of_a_title_and_keeps_titles_that_repeat() {
    let (mut p, _) = Profile::new(false);
    p.add_note("one\ntwo\n", &[], None, BodySource::Literal, "", NOW).unwrap();
    p.add_note("onetwo", &[], None, BodySource::Literal, "", NOW).unwrap();
    assert_eq!(p.notes[0].title, "onetwo");
    assert_eq!(p.notes[1].title, "onetwo");
    assert_eq!(ids(&p), vec![1, 2]);
}

#[test]
fn add_takes_the_body_from_its_source() {
    let (mut p, _) = Profile::new(false);
    let literal = ["from the command line".to_string(), "ignored".to_string()];
    p.add_note("a", &literal, None, BodySource::Stdin, "piped\ntext", NOW).unwrap();
    p.add_note("b", &literal, None, BodySource::Editor, "edited", NOW).unwrap();
    p.add_note("c", &literal, None, BodySource::Literal, "not used", NOW).unwrap();
    p.add_note("d", &literal, None, BodySource::Nothing, "not used", NOW).unwrap();
    let bodies: Vec<&str> = p.notes.iter().map(|n| n.body.as_str()).collect();
    assert_eq!(bodies, vec!["piped\ntext", "edited", "from the command line", ""]);
}

#[test]
fn add_fails_when_no_id_is_left() {
    let mut p = profile(vec![note(usize::MAX, "last", Status::Blank, "")]);
    let r = p.add_note("more", &[], None, BodySource::Literal, "", NOW);
    assert!(matches!(r, Err(Error::InvalidArgument(_))));
    assert_eq!(ids(&p), vec![usize::MAX]);
}

#[test]
fn body_source_of_a_new_note() {
    assert_eq!(add_body_source(true, true, true), BodySource::Stdin);
    assert_eq!(add_body_source(true, false, false), BodySource::Stdin);
    assert_eq!(add_body_source(false, false, true), BodySource::Literal);
    assert_eq!(add_body_source(false, false, false), BodySource::Literal);
    assert_eq!(add_body_source(false, true, true), BodySource::Editor);
    assert_eq!(add_body_source(false, true, false), BodySource::Nothing);
}

#[test]
fn delete_removes_exactly_the_note_with_the_id() {
    let mut p = profile(vec![note(1, "a", Status::Blank, ""), note(2, "b", Status::Blank, ""), note(3, "c", Status::Blank, "")]);
    assert_eq!(p.delete_note(&[2]), vec![true]);
    assert_eq!(ids(&p), vec![1, 3]);
    assert_eq!(p.notes[0].title, "a");
    assert_eq!(p.notes[1].title, "c");
}

#[test]
fn delete_of_a_missing_id_changes_nothing() {
    let mut p = profile(vec![note(1, "a", Status::Blank, ""), note(3, "c", Status::Blank, "")]);
    assert_eq!(p.delete_note(&[2]), vec![false]);
    assert_eq!(ids(&p), vec![1, 3]);
    assert_eq!(p.delete_note(&[]), Vec::<bool>::new());
    assert_eq!(ids(&p), vec![1, 3]);
}

#[test]
fn delete_goes_through_the_whole_list() {
    let mut p = profile(vec![note(1, "a", Status::Blank, ""), note(2, "b", Status::Blank, ""), note(3, "c", Status::Blank, ""), note(4, "d", Status::Blank, "")]);
    assert_eq!(p.delete_note(&[9, 4, 4, 1, 7]), vec![false, true, false, true, false]);
    assert_eq!(ids(&p), vec![2, 3]);
    assert!(p.is_well_formed());
}

#[test]
fn delete_takes_the_first_of_two_notes_with_one_id() {
    let mut p = profile(vec![note(1, "first", Status::Blank, ""), note(1, "second", Status::Blank, "")]);
    assert!(!p.is_well_formed());
    assert_eq!(p.delete_note(&[1]), vec![true]);
    assert_eq!(p.notes.len(), 1);
    assert_eq!(p.notes[0].title, "second");
}

#[test]
fn an_id_is_used_again_only_after_the_last_note_was_deleted() {
    let mut p = profile(vec![note(1, "a", Status::Blank, ""), note(2, "b", Status::Blank, ""), note(3, "c", Status::Blank, "")]);
    p.delete_note(&[2]);
    assert_eq!(p.add_note("d", &[], None, BodySource::Literal, "", NOW), Ok(4));
    p.delete_note(&[4]);
    assert_eq!(p.add_note("e", &[], None, BodySource::Literal, "", NOW), Ok(4));
}

#[test]
fn edit_fails_for_a_missing_id() {
    let mut p = profile(vec![note(1, "a", Status::Urgent, "body")]);
    let r = p.edit_note(7, "new", &[], None, BodySource::Nothing, BoolFlags::default(), false, "", LATER);
    assert_eq!(r, Err(Error::NoteNotFound(7)));
    assert!(same(&p.notes[0], &note(1, "a", Status::Urgent, "body")));
}

#[test]
fn edit_replaces_the_title_and_resets_the_status() {
    let mut p = profile(vec![note(1, "a", Status::Urgent, "body"), note(2, "b", Status::Started, "")]);
    p.edit_note(1, "new\ntitle", &[], None, BodySource::Nothing, BoolFlags::default(), false, "", LATER).unwrap();
    assert_eq!(p.notes[0].title, "newtitle");
    assert_eq!(p.notes[0].status, Status::Blank);
    assert_eq!(p.notes[0].body, "body");
    assert_eq!(p.notes[0].last_touched, LATER);
    assert_eq!(p.notes[0].id, 1);
    assert!(same(&p.notes[1], &note(2, "b", Status::Started, "")));
}

#[test]
fn edit_without_changes_still_sets_status_and_time() {
    let mut p = profile(vec![note(1, "a", Status::Urgent, "body")]);
    p.edit_note(1, "", &[], Some(Status::Started), BodySource::Nothing, BoolFlags::default(), false, "ignored", LATER).unwrap();
    assert_eq!(p.notes[0].title, "a");
    assert_eq!(p.notes[0].status, Status::Started);
    assert_eq!(p.notes[0].body, "body");
    assert_eq!(p.notes[0].last_touched, LATER);
}

#[test]
fn edit_takes_the_body_from_its_source() {
    let literal = ["literal".to_string()];
    let mut p = profile(vec![note(1, "a", Status::Blank, "old")]);
    p.edit_note(1, "", &literal, None, BodySource::Literal, BoolFlags::default(), false, "captured", LATER).unwrap();
    assert_eq!(p.notes[0].body, "literal");
    p.edit_note(1, "", &literal, None, BodySource::Stdin, BoolFlags::default(), false, "captured", LATER).unwrap();
    assert_eq!(p.notes[0].body, "captured");
    p.edit_note(1, "", &literal, None, BodySource::Editor, BoolFlags::default(), false, "edited", LATER).unwrap();
    assert_eq!(p.notes[0].body, "edited");
    p.edit_note(1, "", &literal, None, BodySource::Nothing, BoolFlags::default(), false, "captured", LATER).unwrap();
    assert_eq!(p.notes[0].body, "edited");
}

#[test]
fn edit_with_the_pipe_sign_keeps_the_title() {
    let mut p = profile(vec![note(1, "a", Status::Blank, "old")]);
    let source = edit_body_source("-", &["literal".to_string()], false, true, true);
    assert_eq!(source, BodySource::Stdin);
    p.edit_note(1, "-", &["literal".to_string()], None, source, BoolFlags::default(), false, "piped", LATER).unwrap();
    assert_eq!(p.notes[0].title, "a");
    assert_eq!(p.notes[0].body, "piped");
}

#[test]
fn body_source_of_an_edit() {
    let literal = ["literal".to_string()];
    assert_eq!(edit_body_source("title", &literal, true, true, true), BodySource::Stdin);
    assert_eq!(edit_body_source("title", &literal, false, true, true), BodySource::Editor);
    assert_eq!(edit_body_source("title", &literal, false, true, false), BodySource::Nothing);
    assert_eq!(edit_body_source("title", &literal, false, false, true), BodySource::Literal);
    assert_eq!(edit_body_source("title", &[], false, false, true), BodySource::Nothing);
    assert_eq!(edit_body_source("", &[], false, false, false), BodySource::Nothing);
    assert_eq!(edit_body_source("-", &[], false, false, false), BodySource::Stdin);
    assert_eq!(edit_body_source("--", &[], false, false, false), BodySource::Nothing);
}

#[test]
fn the_editor_needs_consent_in_an_encrypted_profile() {
    assert!(editor_needs_consent(BodySource::Editor, true, false));
    assert!(!editor_needs_consent(BodySource::Editor, true, true));
    assert!(!editor_needs_consent(BodySource::Editor, false, false));
    assert!(!editor_needs_consent(BodySource::Stdin, true, false));
    assert!(!editor_needs_consent(BodySource::Literal, true, false));
    assert!(!editor_needs_consent(BodySource::Nothing, true, false));
}

#[test]
fn edit_without_consent_changes_nothing() {
    let mut flags = BoolFlags::default();
    flags.encrypted = true;
    let mut p = profile(vec![note(1, "a", Status::Urgent, "old")]);
    let r = p.edit_note(1, "new", &[], None, BodySource::Editor, flags, false, "edited", LATER);
    assert_eq!(r, Err(Error::UserAborted));
    assert!(same(&p.notes[0], &note(1, "a", Status::Urgent, "old")));
    let r = p.edit_note(1, "new", &[], None, BodySource::Editor, flags, true, "edited", LATER);
    assert_eq!(r, Ok(()));
    assert_eq!(p.notes[0].body, "edited");
    flags.yes = true;
    let r = p.edit_note(1, "newer", &[], None, BodySource::Editor, flags, false, "again", LATER);
    assert_eq!(r, Ok(()));
    assert_eq!(p.notes[0].body, "again");
}

#[test]
fn clear_removes_every_note_with_consent() {
    let mut p = profile(vec![note(1, "a", Status::Blank, ""), note(2, "b", Status::Blank, "")]);
    p.encrypted = true;
    assert_eq!(p.clear(false, false), Err(Error::UserAborted));
    assert_eq!(ids(&p), vec![1, 2]);
    assert_eq!(p.clear(false, true), Ok(()));
    assert!(p.notes.is_empty());
    assert!(p.encrypted);
    let mut p = profile(vec![note(1, "a", Status::Blank, "")]);
    assert_eq!(p.clear(true, false), Ok(()));
    assert!(p.notes.is_empty());
}

#[test]
fn position_finds_the_first_note_with_an_id() {
    let p = profile(vec![note(4, "a", Status::Blank, ""), note(6, "b", Status::Blank, ""), note(6, "c", Status::Blank, "")]);
    assert_eq!(p.position(4), Some(0));
    assert_eq!(p.position(6), Some(1));
    assert_eq!(p.position(5), None);
    assert_eq!(profile(vec![]).position(0), None);
}

#[test]
fn well_formed_means_increasing_ids() {
    assert!(profile(vec![]).is_well_formed());
    assert!(profile(vec![note(0, "a", Status::Blank, "")]).is_well_formed());
    assert!(profile(vec![note(1, "a", Status::Blank, ""), note(2, "b", Status::Blank, ""), note(9, "c", Status::Blank, "")]).is_well_formed());
    assert!(!profile(vec![note(1, "a", Status::Blank, ""), note(1, "b", Status::Blank, "")]).is_well_formed());
    assert!(!profile(vec![note(1, "a", Status::Blank, ""), note(3, "b", Status::Blank, ""), note(2, "c", Status::Blank, "")]).is_well_formed());
}

#[test]
fn transfer_moves_a_note_to_the_other_profile() {
    let mut a = profile(vec![note(1, "one", Status::Blank, ""), note(2, "two", Status::Blank, ""), note(3, "X", Status::Urgent, "the body")]);
    let mut b = profile(vec![note(4, "there", Status::Blank, ""), note(7, "already", Status::Blank, "")]);
    assert_eq!(check_transfer("a", "b"), Ok(()));
    assert_eq!(a.transfer_note(3, &mut b, LATER), Ok(8));
    assert_eq!(ids(&a), vec![1, 2]);
    assert_eq!(a.position(3), None);
    assert_eq!(ids(&b), vec![4, 7, 8]);
    assert_eq!(b.notes[2].title, "X");
    assert_eq!(b.notes[2].body, "the body");
    assert_eq!(b.notes[2].status, Status::Urgent);
    assert_eq!(b.notes[2].last_touched, LATER);
}

#[test]
fn transfer_to_an_empty_profile_starts_at_one() {
    let mut a = profile(vec![note(3, "X\nwith a line feed", Status::Started, "body")]);
    let (mut b, _) = Profile::new(false);
    assert_eq!(a.transfer_note(3, &mut b, LATER), Ok(1));
    assert!(a.notes.is_empty());
    assert!(same(&b.notes[0], &Item { last_touched: LATER.to_string(), ..note(1, "X\nwith a line feed", Status::Started, "body") }));
}

#[test]
fn transfer_of_a_missing_note_changes_nothing() {
    let mut a = profile(vec![note(1, "one", Status::Blank, "")]);
    let mut b = profile(vec![note(4, "there", Status::Blank, "")]);
    assert_eq!(a.transfer_note(3, &mut b, LATER), Err(Error::NoteNotFound(3)));
    assert_eq!(ids(&a), vec![1]);
    assert_eq!(ids(&b), vec![4]);
    let mut full = profile(vec![note(usize::MAX, "last", Status::Blank, "")]);
    assert!(matches!(a.transfer_note(1, &mut full, LATER), Err(Error::InvalidArgument(_))));
    assert_eq!(ids(&a), vec![1]);
    assert_eq!(ids(&full), vec![usize::MAX]);
}

#[test]
fn transfer_to_the_same_profile_is_refused() {
    assert!(matches!(check_transfer("default", "default"), Err(Error::InvalidArgument(_))));
    assert_eq!(check_transfer("default", "Default"), Ok(()));
    assert_eq!(check_transfer("", "x"), Ok(()));
}

#[test]
fn transfer_is_incomplete_when_the_note_cannot_be_removed() {
    let mut a = profile(vec![note(1, "one", Status::Blank, ""), note(3, "X", Status::Urgent, "the body")]);
    let mut b = profile(vec![note(4, "there", Status::Blank, "")]);
    assert_eq!(a.copy_note_to(3, &mut b, LATER), Ok(5));
    // the note goes away before the transfer removes it
    a.delete_note(&[3]);
    assert_eq!(a.remove_transferred(3), Err(Error::TransferIncomplete(3)));
    assert_eq!(ids(&a), vec![1]);
    assert_eq!(ids(&b), vec![4, 5]);
    assert_eq!(b.notes[1].title, "X");
    assert_eq!(b.notes[1].body, "the body");
    assert_eq!(b.notes[1].status, Status::Urgent);
}

#[test]
fn copy_and_remove_make_a_transfer() {
    let mut a = profile(vec![note(1, "one", Status::Blank, ""), note(3, "X", Status::Urgent, "the body")]);
    let mut b = profile(vec![]);
    assert_eq!(a.copy_note_to(3, &mut b, LATER), Ok(1));
    assert_eq!(ids(&a), vec![1, 3]);
    assert_eq!(a.remove_transferred(3), Ok(()));
    assert_eq!(ids(&a), vec![1]);
    assert_eq!(a.copy_note_to(3, &mut b, LATER), Err(Error::NoteNotFound(3)));
    assert_eq!(ids(&b), vec![1]);
}

#[test]
fn duplicate_copies_every_note() {
    let mut p = profile(vec![note(1, "one", Status::Blank, "b"), note(3, "X", Status::Urgent, "the body")]);
    p.encrypted = true;
    let q = p.duplicate();
    assert!(q.encrypted);
    assert_eq!(q.notes.len(), 2);
    assert!(same(&q.notes[0], &p.notes[0]) && same(&q.notes[1], &p.notes[1]));
    assert!(same(&p.notes[1].duplicate(), &p.notes[1]));
}
