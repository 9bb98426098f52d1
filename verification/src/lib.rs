//! Note profiles: the data model, the note operations, the decisions of the
//! command line and the layout of notes for a terminal.

use vstd::prelude::*;
use vstd::string::StrSliceExecFns;
use vstd::string::StringExecFns;

pub mod codec;
pub mod command;
pub mod errors;
pub mod item;
pub mod lineformat;
pub mod listing;
pub mod profile;
pub mod query;
pub mod report;
pub mod store;
pub mod text;
pub mod utils;

pub use crate::command::{command_of, modify_steps, Command, Step};
pub use crate::profile::Profile;

verus! {

/// The name and version of the program, `build` being the version the
/// build was given; it may be empty.
pub fn version(build: &str) -> (r: String)
    ensures
        r@ == "theca "@ + build@,
{
    let mut out = "theca ".to_owned();
    out.append(build);
    out
}

/// The texts of `v`, each as the sequence of its characters.
pub open spec fn strings(v: Seq<String>) -> Seq<Seq<char>> {
    Seq::new(v.len(), |i: int| v[i]@)
}

/// A copy of a list of texts.
pub fn copy_strings(v: &Vec<String>) -> (r: Vec<String>)
    ensures
        strings(r@) == strings(v@),
{
    let mut out: Vec<String> = Vec::new();
    let mut i: usize = 0;
    while i < v.len()
        invariant
            i <= v.len(),
            out@.len() == i,
            forall|k: int| 0 <= k < i ==> out@[k]@ == v@[k]@,
        decreases v.len() - i,
    {
        out.push(v[i].clone());
        i += 1;
    }
    assert(strings(out@) =~= strings(v@));
    out
}

/// A copy of a list of ids.
pub fn copy_ids(v: &Vec<usize>) -> (r: Vec<usize>)
    ensures
        r@ == v@,
{
    let mut out: Vec<usize> = Vec::new();
    let mut i: usize = 0;
    while i < v.len()
        invariant
            i <= v.len(),
            out@ == v@.take(i as int),
        decreases v.len() - i,
    {
        out.push(v[i]);
        i += 1;
        assert(out@ =~= v@.take(i as int));
    }
    assert(v@.take(v.len() as int) =~= v@);
    out
}

/// What the command line asked for: the commands, the arguments and the
/// flags, as they were parsed.
#[derive(Debug, Clone)]
pub struct Args {
    pub cmd_add: bool,
    pub cmd_clear: bool,
    pub cmd_del: bool,
    pub cmd_decrypt_profile: bool,
    pub cmd_edit: bool,
    pub cmd_encrypt_profile: bool,
    pub cmd_import: bool,
    pub cmd_info: bool,
    pub cmd_list_profiles: bool,
    pub cmd_new_profile: bool,
    pub cmd_search: bool,
    pub cmd_transfer: bool,
    pub cmd__: bool,
    pub arg_id: Vec<usize>,
    pub arg_name: Vec<String>,
    pub arg_pattern: String,
    pub arg_title: String,
    pub flag_body: Vec<String>,
    pub flag_condensed: bool,
    pub flag_datesort: bool,
    pub flag_editor: bool,
    pub flag_encrypted: bool,
    pub flag_json: bool,
    pub flag_key: String,
    pub flag_limit: usize,
    pub flag_new_key: String,
    pub flag_none: bool,
    pub flag_profile: String,
    pub flag_profile_folder: String,
    pub flag_regex: bool,
    pub flag_reverse: bool,
    pub flag_search_body: bool,
    pub flag_started: bool,
    pub flag_urgent: bool,
    pub flag_version: bool,
    pub flag_yes: bool,
}

/// The arguments that an operation of this library may change.
pub enum ArgField {
    CmdImport,
    CmdTransfer,
    ArgName,
    FlagBody,
    FlagEditor,
    FlagEncrypted,
    FlagKey,
    FlagProfile,
    FlagProfileFolder,
}

/// Every argument of `after` is that of `before`, but for those named in
/// `changed`. Texts are compared by their characters.
pub open spec fn unchanged_but(before: &Args, after: &Args, changed: Set<ArgField>) -> bool {
    &&& after.cmd_add == before.cmd_add
    &&& after.cmd_clear == before.cmd_clear
    &&& after.cmd_del == before.cmd_del
    &&& after.cmd_decrypt_profile == before.cmd_decrypt_profile
    &&& after.cmd_edit == before.cmd_edit
    &&& after.cmd_encrypt_profile == before.cmd_encrypt_profile
    &&& changed.contains(ArgField::CmdImport) || after.cmd_import == before.cmd_import
    &&& after.cmd_info == before.cmd_info
    &&& after.cmd_list_profiles == before.cmd_list_profiles
    &&& after.cmd_new_profile == before.cmd_new_profile
    &&& after.cmd_search == before.cmd_search
    &&& changed.contains(ArgField::CmdTransfer) || after.cmd_transfer == before.cmd_transfer
    &&& after.cmd__ == before.cmd__
    &&& after.arg_id@ == before.arg_id@
    &&& changed.contains(ArgField::ArgName) || strings(after.arg_name@) == strings(before.arg_name@)
    &&& after.arg_pattern@ == before.arg_pattern@
    &&& after.arg_title@ == before.arg_title@
    &&& changed.contains(ArgField::FlagBody) || strings(after.flag_body@) == strings(before.flag_body@)
    &&& after.flag_condensed == before.flag_condensed
    &&& after.flag_datesort == before.flag_datesort
    &&& changed.contains(ArgField::FlagEditor) || after.flag_editor == before.flag_editor
    &&& changed.contains(ArgField::FlagEncrypted) || after.flag_encrypted == before.flag_encrypted
    &&& after.flag_json == before.flag_json
    &&& changed.contains(ArgField::FlagKey) || after.flag_key@ == before.flag_key@
    &&& after.flag_limit == before.flag_limit
    &&& after.flag_new_key@ == before.flag_new_key@
    &&& after.flag_none == before.flag_none
    &&& changed.contains(ArgField::FlagProfile) || after.flag_profile@ == before.flag_profile@
    &&& changed.contains(ArgField::FlagProfileFolder) || after.flag_profile_folder@ == before.flag_profile_folder@
    &&& after.flag_regex == before.flag_regex
    &&& after.flag_reverse == before.flag_reverse
    &&& after.flag_search_body == before.flag_search_body
    &&& after.flag_started == before.flag_started
    &&& after.flag_urgent == before.flag_urgent
    &&& after.flag_version == before.flag_version
    &&& after.flag_yes == before.flag_yes
}

impl Args {
    /// The same arguments in a value of their own.
    pub fn duplicate(&self) -> (r: Args)
        ensures
            unchanged_but(self, &r, Set::empty()),
    {
        Args {
            cmd_add: self.cmd_add,
            cmd_clear: self.cmd_clear,
            cmd_del: self.cmd_del,
            cmd_decrypt_profile: self.cmd_decrypt_profile,
            cmd_edit: self.cmd_edit,
            cmd_encrypt_profile: self.cmd_encrypt_profile,
            cmd_import: self.cmd_import,
            cmd_info: self.cmd_info,
            cmd_list_profiles: self.cmd_list_profiles,
            cmd_new_profile: self.cmd_new_profile,
            cmd_search: self.cmd_search,
            cmd_transfer: self.cmd_transfer,
            cmd__: self.cmd__,
            arg_id: copy_ids(&self.arg_id),
            arg_name: copy_strings(&self.arg_name),
            arg_pattern: self.arg_pattern.clone(),
            arg_title: self.arg_title.clone(),
            flag_body: copy_strings(&self.flag_body),
            flag_condensed: self.flag_condensed,
            flag_datesort: self.flag_datesort,
            flag_editor: self.flag_editor,
            flag_encrypted: self.flag_encrypted,
            flag_json: self.flag_json,
            flag_key: self.flag_key.clone(),
            flag_limit: self.flag_limit,
            flag_new_key: self.flag_new_key.clone(),
            flag_none: self.flag_none,
            flag_profile: self.flag_profile.clone(),
            flag_profile_folder: self.flag_profile_folder.clone(),
            flag_regex: self.flag_regex,
            flag_reverse: self.flag_reverse,
            flag_search_body: self.flag_search_body,
            flag_started: self.flag_started,
            flag_urgent: self.flag_urgent,
            flag_version: self.flag_version,
            flag_yes: self.flag_yes,
        }
    }
}

/// The flags that the note operations and the listing look at.
#[derive(Clone, Copy, Debug, PartialEq, Eq, Structural)]
pub struct BoolFlags {
    pub condensed: bool,
    pub datesort: bool,
    pub editor: bool,
    pub encrypted: bool,
    pub json: bool,
    pub regex: bool,
    pub reverse: bool,
    pub search_body: bool,
    pub yes: bool,
}

impl BoolFlags {
    /// The flags as the command line set them.
    pub open spec fn of(args: &Args) -> BoolFlags {
        BoolFlags {
            condensed: args.flag_condensed,
            datesort: args.flag_datesort,
            editor: args.flag_editor,
            encrypted: args.flag_encrypted,
            json: args.flag_json,
            regex: args.flag_regex,
            reverse: args.flag_reverse,
            search_body: args.flag_search_body,
            yes: args.flag_yes,
        }
    }

    /// The flags as the command line set them.
    pub fn from_args(args: &Args) -> (r: BoolFlags)
        ensures
            r == BoolFlags::of(args),
    {
        BoolFlags {
            condensed: args.flag_condensed,
            datesort: args.flag_datesort,
            editor: args.flag_editor,
            encrypted: args.flag_encrypted,
            json: args.flag_json,
            regex: args.flag_regex,
            reverse: args.flag_reverse,
            search_body: args.flag_search_body,
            yes: args.flag_yes,
        }
    }

    /// With no flag set.
    pub open spec fn none() -> BoolFlags {
        BoolFlags {
            condensed: false,
            datesort: false,
            editor: false,
            encrypted: false,
            json: false,
            regex: false,
            reverse: false,
            search_body: false,
            yes: false,
        }
    }
}

impl Default for BoolFlags {
    fn default() -> (r: BoolFlags)
        ensures
            r == BoolFlags::none(),
    {
        BoolFlags {
            condensed: false,
            datesort: false,
            editor: false,
            encrypted: false,
            json: false,
            regex: false,
            reverse: false,
            search_body: false,
            yes: false,
        }
    }
}

/// The name of the profile where neither the command line nor the
/// environment names one.
pub open spec fn default_profile_name() -> Seq<char> {
    "default"@
}

/// A value of the command line, or the default that stands in for it: the
/// default counts where the value is empty and the default is not.
pub open spec fn or_default(given: Seq<char>, default: Seq<char>) -> Seq<char> {
    if given.len() == 0 && default.len() > 0 {
        default
    } else {
        given
    }
}

/// `given`, or `default` where `given` is empty and `default` is not.
pub fn value_or_default(given: &str, default: &str) -> (r: String)
    ensures
        r@ == or_default(given@, default@),
{
    if given.unicode_len() == 0 && default.unicode_len() > 0 {
        default.to_owned()
    } else {
        given.to_owned()
    }
}

/// Applies the defaults to the arguments. `env_profile` and `env_folder`
/// are what the environment gives as default profile and default folder,
/// empty where it gives none; a profile that is still without a name is
/// called `default`. A key implies an encrypted profile.
pub fn setup_args(args: &mut Args, env_profile: &str, env_folder: &str)
    ensures
        unchanged_but(
            old(args),
            final(args),
            set![ArgField::FlagProfile, ArgField::FlagProfileFolder, ArgField::FlagEncrypted],
        ),
        final(args).flag_profile@ == or_default(
            or_default(old(args).flag_profile@, env_profile@),
            default_profile_name(),
        ),
        final(args).flag_profile_folder@ == or_default(old(args).flag_profile_folder@, env_folder@),
        final(args).flag_encrypted == (old(args).flag_encrypted || old(args).flag_key@.len() > 0),
{
    let given = args.duplicate();
    let named = value_or_default(given.flag_profile.as_str(), env_profile);
    let flag_profile = value_or_default(named.as_str(), "default");
    let flag_profile_folder = value_or_default(given.flag_profile_folder.as_str(), env_folder);
    let flag_encrypted = given.flag_encrypted || given.flag_key.as_str().unicode_len() > 0;
    *args = Args { flag_profile, flag_profile_folder, flag_encrypted, ..given };
}

/// Whether the key of the profile is still to be asked for: the profile is
/// encrypted and the arguments hold no key.
pub fn needs_key(args: &Args) -> (r: bool)
    ensures
        r == (args.flag_encrypted && args.flag_key@.len() == 0),
{
    args.flag_encrypted && args.flag_key.as_str().unicode_len() == 0
}

} // verus!
