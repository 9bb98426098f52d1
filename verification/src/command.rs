//! What a command line asks for: which command runs, in which steps, and
//! with which arguments a command is run again on another profile.

use vstd::prelude::*;
use vstd::string::StrSliceExecFns;
use crate::errors::{Error, ErrorView};
use crate::item::ItemView;
use crate::profile::Profile;
use crate::utils::profile_file_name;
use crate::{copy_strings, strings, unchanged_but, ArgField, Args};

verus! {

/// The command that a command line asks for.
#[derive(Clone, Copy, Debug, PartialEq, Eq, Structural)]
pub enum Command {
    /// One or more steps that change the profile, and then a save.
    Modify,
    /// Show one note in full.
    View,
    /// List the notes in which a pattern is found.
    Search,
    /// Show the counts of the profile.
    Info,
    /// Move a note here from another profile.
    Import,
    /// List the profiles of the folder.
    ListProfiles,
    /// List the notes.
    List,
}

/// A step that changes the profile or the way it is saved.
#[derive(Clone, Copy, Debug, PartialEq, Eq, Structural)]
pub enum Step {
    Add,
    Edit,
    Delete,
    Transfer,
    Clear,
    Decrypt,
    Encrypt,
    NewProfile,
}

/// Whether the command line asks for a step that changes the profile.
pub open spec fn modifies(args: &Args) -> bool {
    args.cmd_add || args.cmd_edit || args.cmd_encrypt_profile || args.cmd_del
        || args.cmd_decrypt_profile || args.cmd_transfer || args.cmd_clear || args.cmd_new_profile
}

/// The command of a command line. Steps that change the profile go before
/// everything; an id alone shows that note; a list is what is left.
pub open spec fn spec_command_of(args: &Args) -> Command {
    if modifies(args) {
        Command::Modify
    } else if args.arg_id@.len() > 0 {
        Command::View
    } else if args.cmd_search {
        Command::Search
    } else if args.cmd_info {
        Command::Info
    } else if args.cmd_import {
        Command::Import
    } else if args.cmd_list_profiles {
        Command::ListProfiles
    } else {
        Command::List
    }
}

/// One step where it was asked for, none where not.
pub open spec fn step_if(asked: bool, step: Step) -> Seq<Step> {
    if asked {
        seq![step]
    } else {
        Seq::empty()
    }
}

/// The steps of a command that changes the profile, in the order in which
/// they are carried out.
pub open spec fn spec_modify_steps(args: &Args) -> Seq<Step> {
    step_if(args.cmd_add, Step::Add) + step_if(args.cmd_edit, Step::Edit) + step_if(
        args.cmd_del,
        Step::Delete,
    ) + step_if(args.cmd_transfer, Step::Transfer) + step_if(args.cmd_clear, Step::Clear)
        + step_if(args.cmd_decrypt_profile, Step::Decrypt) + step_if(
        args.cmd_encrypt_profile,
        Step::Encrypt,
    ) + step_if(args.cmd_new_profile, Step::NewProfile)
}

/// The name under which the profile is saved: the first name of the
/// command line for a new profile, else the name of the profile.
pub open spec fn spec_target_name(args: &Args) -> Option<Seq<char>> {
    if args.cmd_new_profile {
        if args.arg_name@.len() > 0 {
            Some(args.arg_name@[0]@)
        } else {
            None
        }
    } else {
        Some(args.flag_profile@)
    }
}

/// The body with which a command is replayed where the editor was asked
/// for: that of the last note of the profile as it was read anew, or
/// nothing in a profile without notes.
pub open spec fn replay_body(fresh: Seq<ItemView>) -> Seq<char> {
    if fresh.len() > 0 {
        fresh.last().body
    } else {
        Seq::empty()
    }
}

/// A list of texts with `first` in the first place: in place of the first
/// text where there is one.
pub open spec fn with_first(texts: Seq<Seq<char>>, first: Seq<char>) -> Seq<Seq<char>> {
    if texts.len() > 0 {
        texts.update(0, first)
    } else {
        seq![first]
    }
}

/// The command of a command line.
pub fn command_of(args: &Args) -> (r: Command)
    ensures
        r == spec_command_of(args),
{
    if args.cmd_add || args.cmd_edit || args.cmd_encrypt_profile || args.cmd_del
        || args.cmd_decrypt_profile || args.cmd_transfer || args.cmd_clear
        || args.cmd_new_profile {
        Command::Modify
    } else if args.arg_id.len() > 0 {
        Command::View
    } else if args.cmd_search {
        Command::Search
    } else if args.cmd_info {
        Command::Info
    } else if args.cmd_import {
        Command::Import
    } else if args.cmd_list_profiles {
        Command::ListProfiles
    } else {
        Command::List
    }
}

/// Appends the step where it was asked for.
fn push_if(steps: &mut Vec<Step>, asked: bool, step: Step)
    ensures
        final(steps)@ == old(steps)@ + step_if(asked, step),
{
    if asked {
        steps.push(step);
        assert(steps@ =~= old(steps)@ + seq![step]);
    } else {
        assert(steps@ =~= old(steps)@ + Seq::<Step>::empty());
    }
}

/// The steps of a command that changes the profile, in their order. The
/// profile is saved after the last of them.
pub fn modify_steps(args: &Args) -> (r: Vec<Step>)
    ensures
        r@ == spec_modify_steps(args),
{
    let mut steps: Vec<Step> = Vec::new();
    push_if(&mut steps, args.cmd_add, Step::Add);
    assert(steps@ =~= step_if(args.cmd_add, Step::Add));
    push_if(&mut steps, args.cmd_edit, Step::Edit);
    push_if(&mut steps, args.cmd_del, Step::Delete);
    push_if(&mut steps, args.cmd_transfer, Step::Transfer);
    push_if(&mut steps, args.cmd_clear, Step::Clear);
    push_if(&mut steps, args.cmd_decrypt_profile, Step::Decrypt);
    push_if(&mut steps, args.cmd_encrypt_profile, Step::Encrypt);
    push_if(&mut steps, args.cmd_new_profile, Step::NewProfile);
    steps
}

/// A list of texts with `first` in the first place.
fn put_first(texts: &Vec<String>, first: String) -> (r: Vec<String>)
    ensures
        strings(r@) == with_first(strings(texts@), first@),
{
    let mut out = copy_strings(texts);
    assert(strings(out@).len() == out@.len());
    assert(strings(texts@).len() == texts@.len());
    assert forall|i: int| 0 <= i < out@.len() implies out@[i]@ == texts@[i]@ by {
        assert(strings(out@)[i] == strings(texts@)[i]);
    }
    if out.len() > 0 {
        out.set(0, first);
        assert(strings(out@) =~= strings(texts@).update(0, first@)) by {
            assert forall|i: int| 0 <= i < out@.len() implies strings(out@)[i] == strings(
                texts@,
            ).update(0, first@)[i] by {
                if i > 0 {
                    assert(strings(out@)[i] == out@[i]@);
                    assert(strings(texts@)[i] == texts@[i]@);
                }
            }
        }
    } else {
        out.push(first);
        assert(strings(out@) =~= seq![first@]);
    }
    out
}

/// The name of the file under which the profile is saved. Fails with
/// `InvalidArgument` where a new profile has no name.
pub fn target_file_name(args: &Args) -> (r: Result<String, Error>)
    ensures
        match r {
            Ok(name) => spec_target_name(args) is Some && name@ == spec_target_name(args)->0
                + ".json"@,
            Err(e) => spec_target_name(args) is None && e@ is InvalidArgument,
        },
{
    if args.cmd_new_profile {
        if args.arg_name.len() > 0 {
            Ok(profile_file_name(args.arg_name[0].as_str()))
        } else {
            Err(Error::InvalidArgument("the new profile has no name".to_owned()))
        }
    } else {
        Ok(profile_file_name(args.flag_profile.as_str()))
    }
}

/// Gives a new profile the name `default` where the command line names
/// none.
pub fn name_new_profile(args: &mut Args)
    ensures
        unchanged_but(old(args), final(args), set![ArgField::ArgName]),
        strings(final(args).arg_name@) == if old(args).arg_name@.len() == 0 {
            seq!["default"@]
        } else {
            strings(old(args).arg_name@)
        },
{
    let given = args.duplicate();
    let mut arg_name = copy_strings(&given.arg_name);
    assert(arg_name@.len() == strings(arg_name@).len());
    assert(given.arg_name@.len() == strings(given.arg_name@).len());
    if arg_name.len() == 0 {
        arg_name.push("default".to_owned());
        assert(strings(arg_name@) =~= seq!["default"@]);
    }
    *args = Args { arg_name, ..given };
}

/// The arguments with which a command is replayed on the profile as it was
/// read anew. Where the editor was asked for, it is not opened again: the
/// body is that of the last note of `fresh`.
pub fn replay_args(args: &Args, fresh: &Profile) -> (r: Args)
    ensures
        unchanged_but(args, &r, set![ArgField::FlagEditor, ArgField::FlagBody]),
        !r.flag_editor,
        strings(r.flag_body@) == if args.flag_editor {
            with_first(strings(args.flag_body@), replay_body(fresh@.notes))
        } else {
            strings(args.flag_body@)
        },
{
    let given = args.duplicate();
    if given.flag_editor {
        let seed = if fresh.notes.len() > 0 {
            proof {
                assert(fresh@.notes.last() == fresh.notes[fresh.notes.len() - 1]@);
            }
            fresh.notes[fresh.notes.len() - 1].body.clone()
        } else {
            String::new()
        };
        let flag_body = put_first(&given.flag_body, seed);
        Args { flag_editor: false, flag_body, ..given }
    } else {
        given
    }
}

/// The arguments of the transfer that an import stands for: the note is
/// moved from the profile that the command line names first to the profile
/// of the command line. Fails with `InvalidArgument` where the command line
/// names no profile.
pub fn import_args(args: &Args) -> (r: Result<Args, Error>)
    ensures
        r is Ok <==> args.arg_name@.len() > 0,
        r is Ok ==> {
            &&& unchanged_but(
                args,
                &r->Ok_0,
                set![
                    ArgField::CmdTransfer,
                    ArgField::CmdImport,
                    ArgField::FlagProfile,
                    ArgField::ArgName,
                ],
            )
            &&& r->Ok_0.cmd_transfer == args.cmd_import
            &&& !r->Ok_0.cmd_import
            &&& r->Ok_0.flag_profile@ == args.arg_name@[0]@
            &&& strings(r->Ok_0.arg_name@) == strings(args.arg_name@).update(0, args.flag_profile@)
        },
        r is Err ==> r->Err_0@ is InvalidArgument,
{
    if args.arg_name.len() == 0 {
        return Err(Error::InvalidArgument("no profile to import from".to_owned()));
    }
    let given = args.duplicate();
    let flag_profile = args.arg_name[0].clone();
    let arg_name = put_first(&args.arg_name, args.flag_profile.clone());
    assert(strings(args.arg_name@).len() > 0);
    let cmd_transfer = args.cmd_import;
    let swapped = Args { cmd_transfer, cmd_import: false, flag_profile, arg_name, ..given };
    proof {
        let changed = set![
            ArgField::CmdTransfer,
            ArgField::CmdImport,
            ArgField::FlagProfile,
            ArgField::ArgName,
        ];
        assert(changed.contains(ArgField::CmdTransfer));
        assert(changed.contains(ArgField::CmdImport));
        assert(changed.contains(ArgField::FlagProfile));
        assert(changed.contains(ArgField::ArgName));
        assert(unchanged_but(args, &given, Set::empty()));
        assert(unchanged_but(args, &swapped, changed));
    }
    Ok(swapped)
}

/// The arguments with which the profile that receives a transferred note is
/// read and saved: its name is the first name of the command line. Fails
/// with `InvalidArgument` where the command line names no profile.
pub fn transfer_args(args: &Args) -> (r: Result<Args, Error>)
    ensures
        r is Ok <==> args.arg_name@.len() > 0,
        r is Ok ==> unchanged_but(args, &r->Ok_0, set![ArgField::FlagProfile])
            && r->Ok_0.flag_profile@ == args.arg_name@[0]@,
        r is Err ==> r->Err_0@ is InvalidArgument,
{
    if args.arg_name.len() == 0 {
        return Err(Error::InvalidArgument("no profile to transfer to".to_owned()));
    }
    let given = args.duplicate();
    let flag_profile = args.arg_name[0].clone();
    Ok(Args { flag_profile, ..given })
}

/// Whether the new key of the profile is still to be asked for.
pub fn needs_new_key(args: &Args) -> (r: bool)
    ensures
        r == (args.flag_new_key@.len() == 0),
{
    args.flag_new_key.as_str().unicode_len() == 0
}

/// Makes the profile an encrypted one, with the new key of the command
/// line as its key from now on.
pub fn encrypt_profile(profile: &mut Profile, args: &mut Args)
    ensures
        final(profile)@.encrypted,
        final(profile)@.notes == old(profile)@.notes,
        unchanged_but(old(args), final(args), set![ArgField::FlagEncrypted, ArgField::FlagKey]),
        final(args).flag_encrypted,
        final(args).flag_key@ == old(args).flag_new_key@,
{
    let given = args.duplicate();
    let flag_key = given.flag_new_key.clone();
    *args = Args { flag_encrypted: true, flag_key, ..given };
    profile.encrypted = true;
}

/// Makes the profile one that is stored as plain text.
pub fn decrypt_profile(profile: &mut Profile)
    ensures
        !final(profile)@.encrypted,
        final(profile)@.notes == old(profile)@.notes,
{
    profile.encrypted = false;
}

} // verus!
