use theca::command::{
    command_of, decrypt_profile, encrypt_profile, import_args, modify_steps, name_new_profile,
    needs_new_key, replay_args, target_file_name, transfer_args, Command, Step,
};
use theca::errors::Error;
use theca::item::{Item, Status};
use theca::profile::Profile;
use theca::utils::{
    extract_status, find_profile_folder, get_yn_input, profile_file_name, profile_of_file,
    termsize, Winsize,
};
use theca::{needs_key, setup_args, version, Args, BoolFlags};

fn blank() -> Args {
    Args {
        cmd_add: false,
        cmd_clear: false,
        cmd_del: false,
        cmd_decrypt_profile: false,
        cmd_edit: false,
        cmd_encrypt_profile: false,
        cmd_import: false,
        cmd_info: false,
        cmd_list_profiles: false,
        cmd_new_profile: false,
        cmd_search: false,
        cmd_transfer: false,
        cmd__: false,
        arg_id: vec![],
        arg_name: vec![],
        arg_pattern: String::new(),
        arg_title: String::new(),
        flag_body: vec![],
        flag_condensed: false,
        flag_datesort: false,
        flag_editor: false,
        flag_encrypted: false,
        flag_json: false,
        flag_key: String::new(),
        flag_limit: 0,
        flag_new_key: String::new(),
        flag_none: false,
        flag_profile: String::new(),
        flag_profile_folder: String::new(),
        flag_regex: false,
        flag_reverse: false,
        flag_search_body: false,
        flag_started: false,
        flag_urgent: false,
        flag_version: false,
        flag_yes: false,
    }
}

fn text(args: &Args) -> String {
    format!("{:?}", args)
}

#[test]
fn version_names_the_program() {
    assert_eq!(version("1.0.0"), "theca 1.0.0");
    assert_eq!(version(""), "theca ");
}

#[test]
fn flags_come_from_the_arguments() {
    let mut args = blank();
    assert_eq!(BoolFlags::from_args(&args), BoolFlags::default());
    args.flag_condensed = true;
    args.flag_json = true;
    args.flag_yes = true;
    args.flag_none = true;
    let flags = BoolFlags::from_args(&args);
    assert_eq!(
        flags,
        BoolFlags {
            condensed: true,
            datesort: false,
            editor: false,
            encrypted: false,
            json: true,
            regex: false,
            reverse: false,
            search_body: false,
            yes: true,
        }
    );
    args = blank();
    args.flag_datesort = true;
    args.flag_editor = true;
    args.flag_encrypted = true;
    args.flag_regex = true;
    args.flag_reverse = true;
    args.flag_search_body = true;
    let flags = BoolFlags::from_args(&args);
    assert!(flags.datesort && flags.editor && flags.encrypted && flags.regex && flags.reverse && flags.search_body);
    assert!(!flags.condensed && !flags.json && !flags.yes);
}

#[test]
fn setup_names_the_profile_default() {
    let mut args = blank();
    setup_args(&mut args, "", "");
    let mut expected = blank();
    expected.flag_profile = "default".to_string();
    assert_eq!(text(&args), text(&expected));
    assert!(!needs_key(&args));
}

#[test]
fn setup_takes_the_defaults_of_the_environment() {
    let mut args = blank();
    setup_args(&mut args, "work", "/notes");
    assert_eq!(args.flag_profile, "work");
    assert_eq!(args.flag_profile_folder, "/notes");
    let mut args = blank();
    args.flag_profile = "home".to_string();
    args.flag_profile_folder = "/mine".to_string();
    args.arg_title = "a title".to_string();
    args.cmd_add = true;
    let before = text(&args);
    setup_args(&mut args, "work", "/notes");
    assert_eq!(text(&args), before);
}

#[test]
fn setup_takes_a_key_for_an_encrypted_profile() {
    let mut args = blank();
    args.flag_key = "secret".to_string();
    setup_args(&mut args, "", "");
    assert!(args.flag_encrypted);
    assert_eq!(args.flag_key, "secret");
    assert!(!needs_key(&args));
    let mut args = blank();
    args.flag_encrypted = true;
    setup_args(&mut args, "", "");
    assert!(args.flag_encrypted);
    assert!(needs_key(&args));
}

#[test]
fn the_command_of_a_command_line() {
    let mut args = blank();
    assert_eq!(command_of(&args), Command::List);
    args.cmd_list_profiles = true;
    assert_eq!(command_of(&args), Command::ListProfiles);
    args.cmd_import = true;
    assert_eq!(command_of(&args), Command::Import);
    args.cmd_info = true;
    assert_eq!(command_of(&args), Command::Info);
    args.cmd_search = true;
    assert_eq!(command_of(&args), Command::Search);
    args.arg_id = vec![3];
    assert_eq!(command_of(&args), Command::View);
    args.cmd_del = true;
    assert_eq!(command_of(&args), Command::Modify);
    for set in [
        |a: &mut Args| a.cmd_add = true,
        |a: &mut Args| a.cmd_edit = true,
        |a: &mut Args| a.cmd_encrypt_profile = true,
        |a: &mut Args| a.cmd_del = true,
        |a: &mut Args| a.cmd_decrypt_profile = true,
        |a: &mut Args| a.cmd_transfer = true,
        |a: &mut Args| a.cmd_clear = true,
        |a: &mut Args| a.cmd_new_profile = true,
    ] {
        let mut args = blank();
        set(&mut args);
        assert_eq!(command_of(&args), Command::Modify);
    }
}

#[test]
fn the_steps_of_a_command() {
    let mut args = blank();
    assert_eq!(modify_steps(&args), vec![]);
    args.cmd_add = true;
    assert_eq!(modify_steps(&args), vec![Step::Add]);
    args.cmd_new_profile = true;
    args.cmd_clear = true;
    assert_eq!(modify_steps(&args), vec![Step::Add, Step::Clear, Step::NewProfile]);
    args.cmd_edit = true;
    args.cmd_del = true;
    args.cmd_transfer = true;
    args.cmd_decrypt_profile = true;
    args.cmd_encrypt_profile = true;
    assert_eq!(
        modify_steps(&args),
        vec![
            Step::Add,
            Step::Edit,
            Step::Delete,
            Step::Transfer,
            Step::Clear,
            Step::Decrypt,
            Step::Encrypt,
            Step::NewProfile
        ]
    );
}

#[test]
fn the_file_of_a_profile() {
    let mut args = blank();
    args.flag_profile = "default".to_string();
    args.arg_name = vec!["other".to_string()];
    assert_eq!(target_file_name(&args), Ok("default.json".to_string()));
    args.cmd_new_profile = true;
    assert_eq!(target_file_name(&args), Ok("other.json".to_string()));
    args.arg_name = vec![];
    assert!(matches!(target_file_name(&args), Err(Error::InvalidArgument(_))));
    assert_eq!(profile_file_name("work"), "work.json");
    assert_eq!(profile_file_name(""), ".json");
}

#[test]
fn a_new_profile_is_called_default() {
    let mut args = blank();
    args.cmd_new_profile = true;
    name_new_profile(&mut args);
    assert_eq!(args.arg_name, vec!["default".to_string()]);
    let mut expected = blank();
    expected.cmd_new_profile = true;
    expected.arg_name = vec!["default".to_string()];
    assert_eq!(text(&args), text(&expected));
    args.arg_name = vec!["work".to_string(), "more".to_string()];
    name_new_profile(&mut args);
    assert_eq!(args.arg_name, vec!["work".to_string(), "more".to_string()]);
}

fn fresh() -> Profile {
    let note = |id: usize, body: &str| Item {
        id,
        title: "t".to_string(),
        status: Status::Blank,
        body: body.to_string(),
        last_touched: "2016-01-08 15:31:14 -0800".to_string(),
    };
    Profile { encrypted: false, notes: vec![note(1, "first"), note(2, "the last body")] }
}

#[test]
fn a_replay_does_not_open_the_editor_again() {
    let mut args = blank();
    args.cmd_add = true;
    args.flag_editor = true;
    args.arg_title = "title".to_string();
    let replayed = replay_args(&args, &fresh());
    let mut expected = blank();
    expected.cmd_add = true;
    expected.arg_title = "title".to_string();
    expected.flag_body = vec!["the last body".to_string()];
    assert_eq!(text(&replayed), text(&expected));
    args.flag_body = vec!["given".to_string(), "second".to_string()];
    let replayed = replay_args(&args, &fresh());
    assert_eq!(replayed.flag_body, vec!["the last body".to_string(), "second".to_string()]);
    let replayed = replay_args(&args, &Profile { encrypted: false, notes: vec![] });
    assert_eq!(replayed.flag_body, vec!["".to_string(), "second".to_string()]);
    assert!(!replayed.flag_editor);
}

#[test]
fn a_replay_without_the_editor_keeps_the_arguments() {
    let mut args = blank();
    args.cmd_add = true;
    args.flag_body = vec!["given".to_string()];
    args.arg_id = vec![4, 5];
    let replayed = replay_args(&args, &fresh());
    assert_eq!(text(&replayed), text(&args));
}

#[test]
fn an_import_is_a_transfer_the_other_way() {
    let mut args = blank();
    args.cmd_import = true;
    args.flag_profile = "here".to_string();
    args.arg_name = vec!["there".to_string()];
    args.arg_id = vec![3];
    let swapped = import_args(&args).unwrap();
    let mut expected = blank();
    expected.cmd_transfer = true;
    expected.flag_profile = "there".to_string();
    expected.arg_name = vec!["here".to_string()];
    expected.arg_id = vec![3];
    assert_eq!(text(&swapped), text(&expected));
    assert_eq!(command_of(&swapped), Command::Modify);
    args.arg_name = vec![];
    assert!(matches!(import_args(&args), Err(Error::InvalidArgument(_))));
}

#[test]
fn a_transfer_names_the_other_profile() {
    let mut args = blank();
    args.cmd_transfer = true;
    args.flag_profile = "here".to_string();
    args.arg_name = vec!["there".to_string()];
    let other = transfer_args(&args).unwrap();
    let mut expected = blank();
    expected.cmd_transfer = true;
    expected.flag_profile = "there".to_string();
    expected.arg_name = vec!["there".to_string()];
    assert_eq!(text(&other), text(&expected));
    args.arg_name = vec![];
    assert!(matches!(transfer_args(&args), Err(Error::InvalidArgument(_))));
}

#[test]
fn a_profile_is_encrypted_with_the_new_key() {
    let mut args = blank();
    args.cmd_encrypt_profile = true;
    assert!(needs_new_key(&args));
    args.flag_new_key = "new secret".to_string();
    args.flag_key = "old".to_string();
    assert!(!needs_new_key(&args));
    let mut p = fresh();
    encrypt_profile(&mut p, &mut args);
    assert!(p.encrypted);
    assert_eq!(p.notes.len(), 2);
    let mut expected = blank();
    expected.cmd_encrypt_profile = true;
    expected.flag_new_key = "new secret".to_string();
    expected.flag_key = "new secret".to_string();
    expected.flag_encrypted = true;
    assert_eq!(text(&args), text(&expected));
    decrypt_profile(&mut p);
    assert!(!p.encrypted);
    assert_eq!(p.notes.len(), 2);
}

#[test]
fn the_status_of_the_status_flags() {
    assert_eq!(extract_status(false, false, false), Ok(None));
    assert_eq!(extract_status(true, false, false), Ok(Some(Status::Blank)));
    assert_eq!(extract_status(false, true, false), Ok(Some(Status::Started)));
    assert_eq!(extract_status(false, false, true), Ok(Some(Status::Urgent)));
    for (n, s, u) in [(true, true, false), (true, false, true), (false, true, true), (true, true, true)] {
        assert!(matches!(extract_status(n, s, u), Err(Error::InvalidArgument(_))));
    }
}

#[test]
fn an_answer_says_yes_or_no() {
    for yes in ["y", "Y", "yes", "YES", "Yes"] {
        assert_eq!(get_yn_input(yes), Some(true));
    }
    for no in ["n", "N", "no", "NO", "No"] {
        assert_eq!(get_yn_input(no), Some(false));
    }
    for other in ["", "yEs", "nO", "maybe", " y", "y ", "yes!"] {
        assert_eq!(get_yn_input(other), None);
    }
}

#[test]
fn the_width_of_the_terminal() {
    assert_eq!(termsize(Winsize { ws_row: 24, ws_col: 80 }), 80);
    assert_eq!(termsize(Winsize { ws_row: 0, ws_col: 80 }), 0);
    assert_eq!(termsize(Winsize { ws_row: 24, ws_col: 0 }), 0);
    assert_eq!(termsize(Winsize { ws_row: 0, ws_col: 0 }), 0);
    assert_eq!(termsize(Winsize { ws_row: 1, ws_col: 65535 }), 65535);
}

#[test]
fn the_folder_of_the_profiles() {
    assert_eq!(find_profile_folder("/notes", Some("/home/me")), Ok("/notes".to_string()));
    assert_eq!(find_profile_folder("/notes", None), Ok("/notes".to_string()));
    assert_eq!(find_profile_folder("", Some("/home/me")), Ok("/home/me/.theca".to_string()));
    assert!(matches!(find_profile_folder("", None), Err(Error::NotFound(_))));
}

#[test]
fn the_profile_of_a_file() {
    assert_eq!(profile_of_file("default.json"), Some("default".to_string()));
    assert_eq!(profile_of_file("a.b.json"), Some("a.b".to_string()));
    assert_eq!(profile_of_file(".json"), Some(String::new()));
    assert_eq!(profile_of_file("grüße.json"), Some("grüße".to_string()));
    for other in ["", "json", "default.jso", "default.json~", "default.JSON", "default"] {
        assert_eq!(profile_of_file(other), None);
    }
    assert_eq!(profile_of_file(&profile_file_name("work")), Some("work".to_string()));
}

#[test]
fn the_status_has_a_text_and_a_number() {
    assert_eq!(Status::Blank.to_string(), "");
    assert_eq!(Status::Started.to_string(), "Started");
    assert_eq!(Status::Urgent.to_string(), "Urgent");
    assert_eq!(Status::Blank.debug_name(), "Blank");
    assert_eq!(Status::Urgent.debug_name(), "Urgent");
    assert_eq!(format!("{:?}", Status::Started), Status::Started.debug_name());
    for (i, status) in [Status::Blank, Status::Started, Status::Urgent].into_iter().enumerate() {
        assert_eq!(status.index(), i);
        assert_eq!(Status::from_index(i), Some(status));
    }
    assert_eq!(Status::from_index(3), None);
}

#[test]
fn an_error_has_a_message() {
    assert_eq!(Error::UserAborted.message(), "ok bye");
    assert_eq!(Error::NotFound("/x/a.json".to_string()).message(), "/x/a.json does not exist.");
    assert_eq!(Error::NotAFile("/x/a.json".to_string()).message(), "/x/a.json is not a file.");
    assert_eq!(Error::MalformedProfile("/x/a.json".to_string()).message(), "invalid JSON in /x/a.json");
    assert_eq!(Error::NoteNotFound(12).message(), "note 12 doesn't exist");
    assert_eq!(Error::TransferIncomplete(3).message(), "couldn't remove note 3 after it was copied");
    assert_eq!(Error::InvalidPattern("unclosed".to_string()).message(), "regex error: unclosed");
    assert_eq!(Error::InvalidArgument("what".to_string()).message(), "what");
    assert_eq!(Error::IoError("disk".to_string()).message(), "disk");
    assert_eq!(
        Error::InvalidTimestamp("once".to_string()).message(),
        "last_touched is not properly formated: once"
    );
    assert!(!Error::DecryptionError.message().is_empty());
    assert!(!Error::InvalidEncoding.message().is_empty());
}
