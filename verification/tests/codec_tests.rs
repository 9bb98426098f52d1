use theca::codec::{StoredItem, StoredProfile};
use theca::errors::Error;
use theca::item::{Item, Status};
use theca::profile::Profile;

fn stored(id: usize, title: &str, status: &str) -> StoredItem {
    StoredItem {
        id,
        title: title.to_string(),
        status: status.to_string(),
        body: "b".to_string(),
        last_touched: "2016-01-08 15:31:14 -0800".to_string(),
    }
}

fn note(id: usize, title: &str, status: Status, body: &str) -> Item {
    Item {
        id,
        title: title.to_string(),
        status,
        body: body.to_string(),
        last_touched: "2016-01-08 15:31:14 -0800".to_string(),
    }
}

#[test]
fn a_status_is_stored_as_a_word() {
    assert_eq!(Status::from_label(""), Some(Status::Blank));
    assert_eq!(Status::from_label("Started"), Some(Status::Started));
    assert_eq!(Status::from_label("Urgent"), Some(Status::Urgent));
    for word in ["Blank", "started", "URGENT", " ", "Urgent "] {
        assert_eq!(Status::from_label(word), None);
    }
    for status in [Status::Blank, Status::Started, Status::Urgent] {
        assert_eq!(Status::from_label(&status.to_string()), Some(status));
    }
}

#[test]
fn a_profile_in_its_stored_form() {
    let p = Profile {
        encrypted: true,
        notes: vec![note(1, "a", Status::Blank, "b"), note(3, "c", Status::Urgent, "b")],
    };
    assert_eq!(
        p.to_stored(),
        StoredProfile { encrypted: true, notes: vec![stored(1, "a", ""), stored(3, "c", "Urgent")] }
    );
    let (empty, _) = Profile::new(false);
    assert_eq!(empty.to_stored(), StoredProfile { encrypted: false, notes: vec![] });
}

#[test]
fn what_was_stored_is_what_is_loaded() {
    let p = Profile {
        encrypted: true,
        notes: vec![
            note(1, "a", Status::Blank, "one\ntwo"),
            note(3, "c", Status::Urgent, ""),
            note(4, "", Status::Started, "grüße"),
        ],
    };
    let loaded = Profile::from_stored(&p.to_stored(), "/x/default.json").unwrap();
    assert_eq!(loaded.encrypted, p.encrypted);
    assert_eq!(loaded.notes.len(), 3);
    for (a, b) in loaded.notes.iter().zip(p.notes.iter()) {
        assert_eq!(
            (a.id, &a.title, a.status, &a.body, &a.last_touched),
            (b.id, &b.title, b.status, &b.body, &b.last_touched)
        );
    }
    assert_eq!(loaded.to_stored(), p.to_stored());
}

#[test]
fn a_stored_profile_with_a_strange_status_is_malformed() {
    let s = StoredProfile { encrypted: false, notes: vec![stored(1, "a", ""), stored(2, "b", "Done")] };
    assert_eq!(
        Profile::from_stored(&s, "/x/default.json").err(),
        Some(Error::MalformedProfile("/x/default.json".to_string()))
    );
}

#[test]
fn a_stored_profile_with_an_id_twice_is_malformed() {
    let s = StoredProfile { encrypted: false, notes: vec![stored(4, "a", ""), stored(4, "b", "")] };
    assert_eq!(
        Profile::from_stored(&s, "p").err(),
        Some(Error::MalformedProfile("p".to_string()))
    );
    let s = StoredProfile { encrypted: false, notes: vec![stored(4, "a", ""), stored(2, "b", "")] };
    assert!(Profile::from_stored(&s, "p").is_err());
}

#[test]
fn a_profile_from_a_file() {
    let s = StoredProfile { encrypted: false, notes: vec![stored(1, "a", ""), stored(4, "b", "Started")] };
    let (p, fingerprint) = Profile::from_existing_profile(&s, "/x/default.json", b"foobar").unwrap();
    assert_eq!(fingerprint, 0x8594_4171_f739_67e8);
    assert_eq!(p.notes.len(), 2);
    assert_eq!(p.notes[1].title, "b");
    assert_eq!(p.notes[1].status, Status::Started);
    let s = StoredProfile { encrypted: false, notes: vec![stored(4, "a", ""), stored(4, "b", "")] };
    assert_eq!(
        Profile::from_existing_profile(&s, "/x/default.json", b"foobar").err(),
        Some(Error::MalformedProfile("/x/default.json".to_string()))
    );
}
