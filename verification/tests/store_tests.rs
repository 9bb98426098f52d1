use theca::errors::Error;
use theca::item::{Item, Status};
use theca::profile::{BodySource, Profile};
use theca::store::{
    creation_needs_consent, locate, profile_text, replay_request, save_step, SaveAction, SaveEvent,
    SaveRequest, SaveState,
};
use theca::utils::profile_fingerprint;

const NOW: &str = "2016-01-08 15:31:14 -0800";

fn note(id: usize, title: &str) -> Item {
    Item {
        id,
        title: title.to_string(),
        status: Status::Blank,
        body: String::new(),
        last_touched: NOW.to_string(),
    }
}

fn request(new_profile: bool, yes: bool, fingerprint: u64) -> SaveRequest {
    SaveRequest { new_profile, yes, fingerprint }
}

#[test]
fn fingerprint_is_the_fnv_hash_of_the_bytes() {
    assert_eq!(profile_fingerprint(b""), 0xcbf2_9ce4_8422_2325);
    assert_eq!(profile_fingerprint(b"a"), 0xaf63_dc4c_8601_ec8c);
    assert_eq!(profile_fingerprint(b"foobar"), 0x8594_4171_f739_67e8);
    assert_eq!(profile_fingerprint(b"{\"encrypted\": false}"), 2373635723487889758);
    assert_ne!(profile_fingerprint(b"{\"encrypted\": false}"), profile_fingerprint(b"{\"encrypted\": true}"));
}

#[test]
fn a_new_profile_is_written_at_once() {
    let r = request(true, false, 0);
    assert_eq!(
        save_step(r, SaveState::Start, SaveEvent::Begin { target_exists: false }),
        (SaveState::Finished, SaveAction::Write)
    );
}

#[test]
fn a_new_profile_asks_before_it_overwrites() {
    let r = request(true, false, 0);
    let (state, action) = save_step(r, SaveState::Start, SaveEvent::Begin { target_exists: true });
    assert_eq!((state, action), (SaveState::AskedOverwrite, SaveAction::AskOverwrite));
    assert_eq!(save_step(r, state, SaveEvent::Answer(false)), (SaveState::Finished, SaveAction::Abort));
    assert_eq!(save_step(r, state, SaveEvent::Answer(true)), (SaveState::Finished, SaveAction::Write));
    // nobody is asked where every question counts as answered
    let r = request(true, true, 0);
    assert_eq!(
        save_step(r, SaveState::Start, SaveEvent::Begin { target_exists: true }),
        (SaveState::Finished, SaveAction::Write)
    );
    // a profile that is not new overwrites its own file
    let r = request(false, false, 0);
    assert_eq!(
        save_step(r, SaveState::Start, SaveEvent::Begin { target_exists: true }),
        (SaveState::Finished, SaveAction::Write)
    );
}

#[test]
fn a_profile_that_was_read_is_compared_with_its_file() {
    let r = request(false, false, 77);
    let (state, action) = save_step(r, SaveState::Start, SaveEvent::Begin { target_exists: true });
    assert_eq!((state, action), (SaveState::ReadingFingerprint, SaveAction::ReadFingerprint));
    assert_eq!(save_step(r, state, SaveEvent::Fingerprint(77)), (SaveState::Finished, SaveAction::Write));
    let (state, action) = save_step(r, state, SaveEvent::Fingerprint(78));
    assert_eq!((state, action), (SaveState::AskedMerge, SaveAction::AskMerge));
    assert_eq!(save_step(r, state, SaveEvent::Answer(false)), (SaveState::Finished, SaveAction::Abort));
    assert_eq!(save_step(r, state, SaveEvent::Answer(true)), (SaveState::Finished, SaveAction::Replay));
}

#[test]
fn a_merge_that_was_agreed_to_beforehand_is_not_asked_for() {
    let r = request(false, true, 77);
    let (state, _) = save_step(r, SaveState::Start, SaveEvent::Begin { target_exists: true });
    assert_eq!(save_step(r, state, SaveEvent::Fingerprint(78)), (SaveState::Finished, SaveAction::Replay));
    assert_eq!(save_step(r, state, SaveEvent::Fingerprint(77)), (SaveState::Finished, SaveAction::Write));
}

#[test]
fn the_questions_come_one_after_the_other() {
    let r = request(true, false, 5);
    let (state, action) = save_step(r, SaveState::Start, SaveEvent::Begin { target_exists: true });
    assert_eq!(action, SaveAction::AskOverwrite);
    let (state, action) = save_step(r, state, SaveEvent::Answer(true));
    assert_eq!((state, action), (SaveState::ReadingFingerprint, SaveAction::ReadFingerprint));
    let (state, action) = save_step(r, state, SaveEvent::Fingerprint(6));
    assert_eq!(action, SaveAction::AskMerge);
    assert_eq!(save_step(r, state, SaveEvent::Answer(true)).1, SaveAction::Replay);
}

#[test]
fn an_event_out_of_turn_ends_the_save() {
    let r = request(false, false, 77);
    for state in [SaveState::Start, SaveState::AskedOverwrite, SaveState::AskedMerge, SaveState::Finished] {
        assert_eq!(save_step(r, state, SaveEvent::Fingerprint(77)), (SaveState::Finished, SaveAction::Abort));
    }
    assert_eq!(save_step(r, SaveState::Start, SaveEvent::Answer(true)), (SaveState::Finished, SaveAction::Abort));
    assert_eq!(
        save_step(r, SaveState::Finished, SaveEvent::Begin { target_exists: false }),
        (SaveState::Finished, SaveAction::Abort)
    );
    assert_eq!(
        save_step(r, SaveState::ReadingFingerprint, SaveEvent::Answer(true)),
        (SaveState::Finished, SaveAction::Abort)
    );
}

#[test]
fn a_replay_is_saved_without_a_fingerprint() {
    let r = replay_request(request(false, true, 77));
    assert_eq!(r, request(false, true, 0));
    assert_eq!(
        save_step(r, SaveState::Start, SaveEvent::Begin { target_exists: true }),
        (SaveState::Finished, SaveAction::Write)
    );
}

// What a save does with a profile, with `disk` standing for the file: the
// bytes on disk are a list of titles, one to a line.
fn encode(profile: &Profile) -> Vec<u8> {
    profile.notes.iter().map(|n| format!("{}\n", n.title)).collect::<String>().into_bytes()
}

fn decode(bytes: &[u8]) -> Profile {
    let text = String::from_utf8(bytes.to_vec()).unwrap();
    let notes = text.lines().enumerate().map(|(i, title)| note(i + 1, title)).collect();
    Profile { encrypted: false, notes }
}

fn add(profile: &mut Profile, title: &str) {
    profile.add_note(title, &[], None, BodySource::Literal, "", NOW).unwrap();
}

fn save(profile: &Profile, disk: &mut Vec<u8>, r: SaveRequest, command: &str) -> Result<(), Error> {
    let (mut state, mut action) = save_step(r, SaveState::Start, SaveEvent::Begin { target_exists: true });
    loop {
        match action {
            SaveAction::Write => {
                *disk = encode(profile);
                return Ok(());
            }
            SaveAction::ReadFingerprint => {
                (state, action) = save_step(r, state, SaveEvent::Fingerprint(profile_fingerprint(disk)));
            }
            SaveAction::Replay => {
                let mut fresh = decode(disk);
                add(&mut fresh, command);
                return save(&fresh, disk, replay_request(r), command);
            }
            SaveAction::AskOverwrite | SaveAction::AskMerge => {
                (state, action) = save_step(r, state, SaveEvent::Answer(false));
            }
            SaveAction::Abort => return Err(Error::UserAborted),
        }
    }
}

#[test]
fn merge_replays_the_command_on_the_file_as_it_is() {
    let mut disk = b"one\ntwo\n".to_vec();
    let fingerprint = profile_fingerprint(&disk);
    let mut p = decode(&disk);
    // the file changes behind the back of the profile
    disk = b"one\ntwo\nfrom elsewhere\n".to_vec();
    add(&mut p, "mine");
    assert_eq!(save(&p, &mut disk, request(false, true, fingerprint), "mine"), Ok(()));
    assert_eq!(disk, b"one\ntwo\nfrom elsewhere\nmine\n".to_vec());
    let saved = decode(&disk);
    assert_eq!(saved.notes[3].id, 4);
}

#[test]
fn a_file_that_did_not_change_is_overwritten() {
    let mut disk = b"one\ntwo\n".to_vec();
    let fingerprint = profile_fingerprint(&disk);
    let mut p = decode(&disk);
    add(&mut p, "mine");
    assert_eq!(save(&p, &mut disk, request(false, false, fingerprint), "mine"), Ok(()));
    assert_eq!(disk, b"one\ntwo\nmine\n".to_vec());
}

#[test]
fn a_declined_merge_writes_nothing() {
    let mut disk = b"one\ntwo\n".to_vec();
    let fingerprint = profile_fingerprint(&disk);
    let mut p = decode(&disk);
    disk = b"one\ntwo\nfrom elsewhere\n".to_vec();
    add(&mut p, "mine");
    assert_eq!(save(&p, &mut disk, request(false, false, fingerprint), "mine"), Err(Error::UserAborted));
    assert_eq!(disk, b"one\ntwo\nfrom elsewhere\n".to_vec());
}

#[test]
fn a_profile_from_scratch() {
    let (p, fingerprint) = Profile::from_scratch(true, true, false, false).unwrap();
    assert!(p.encrypted && p.notes.is_empty());
    assert_eq!(fingerprint, 0);
    assert_eq!(Profile::from_scratch(false, false, false, false).err(), Some(Error::UserAborted));
    assert!(Profile::from_scratch(false, false, true, false).is_ok());
    assert!(Profile::from_scratch(false, false, false, true).is_ok());
    assert!(creation_needs_consent(false, false));
    assert!(!creation_needs_consent(true, false));
    assert!(!creation_needs_consent(false, true));
}

#[test]
fn a_profile_is_looked_for_at_its_path() {
    assert_eq!(locate("/x/default.json", true, true), Ok(()));
    assert_eq!(locate("/x/default.json", false, true), Err(Error::NotAFile("/x/default.json".to_string())));
    assert_eq!(locate("/x/default.json", false, false), Err(Error::NotFound("/x/default.json".to_string())));
}

#[test]
fn the_text_of_a_profile_is_utf8() {
    assert_eq!(profile_text(b"{}".to_vec()), Ok("{}".to_string()));
    assert_eq!(profile_text("grüße ♥".as_bytes().to_vec()), Ok("grüße ♥".to_string()));
    assert_eq!(profile_text(vec![]), Ok(String::new()));
    assert_eq!(profile_text(vec![0x66, 0xff, 0x6f]), Err(Error::InvalidEncoding));
    assert_eq!(profile_text(vec![0xc3]), Err(Error::InvalidEncoding));
}
