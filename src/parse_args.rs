//! The command-line arguments of the skeleton maker, and the rules on which
//! of them go together.
use crate::skel_error::{SkelErrType, SkelError};
use crate::text::push_str;
use vstd::prelude::*;

verus! {

/// What the command line asked for.
#[derive(Default, Debug)]
pub struct SkelArgs {
    /// the skeleton to make, its name or an alias
    pub skeleton: Option<String>,
    /// the name of the new project
    pub name: Option<String>,
    /// a path to a skeleton file
    pub skeleton_file: Option<String>,
    /// a path to a main configuration file
    pub alt_config_path: Option<String>,
    /// a different root to make the project in
    pub different_root: Option<String>,
    /// print what would be done
    pub dry_run: bool,
}

pub open spec fn no_skeleton_message() -> Seq<char> {
    "Error: did not get a skeleton or skeleton-file to make"@
}

pub open spec fn both_message() -> Seq<char> {
    "Error: both a skeleton and a skeleton-file given"@
}

pub open spec fn not_enough_message() -> Seq<char> {
    "Error: did not get enough args"@
}

pub open spec fn no_name_message() -> Seq<char> {
    "Error: did not get a project name to make"@
}

/// The error that the arguments call for, if any.
pub open spec fn args_error(skeleton: bool, name: bool, file: bool) -> Option<Seq<char>> {
    if !skeleton && !file {
        Some(no_skeleton_message())
    } else if name && file && skeleton {
        Some(both_message())
    } else if skeleton && !name && !file {
        Some(not_enough_message())
    } else if file && !skeleton && !name {
        Some(no_name_message())
    } else {
        None
    }
}

fn arg_error(msg: &str) -> (r: SkelError)
    ensures
        r.err_type == SkelErrType::BoxError,
        r.err_str@ == msg@,
{
    let mut s = String::new();
    push_str(&mut s, msg);
    SkelError::new(SkelErrType::BoxError, s)
}

/// Checks that the parsed arguments name one skeleton and a project: a
/// skeleton with a name, or a skeleton file with a name. With a skeleton file,
/// a lone positional argument is the project's name.
pub fn parse_args(skel_args: SkelArgs) -> (r: Result<SkelArgs, SkelError>)
    ensures
        match args_error(
            skel_args.skeleton is Some,
            skel_args.name is Some,
            skel_args.skeleton_file is Some,
        ) {
            Some(m) => r is Err && r->Err_0.err_type == SkelErrType::BoxError && r->Err_0.err_str@
                == m,
            None => r is Ok && r->Ok_0.skeleton_file == skel_args.skeleton_file
                && r->Ok_0.alt_config_path == skel_args.alt_config_path && r->Ok_0.different_root
                == skel_args.different_root && r->Ok_0.dry_run == skel_args.dry_run && if skel_args.name
                is None {
                r->Ok_0.name == skel_args.skeleton && r->Ok_0.skeleton is None
            } else {
                r->Ok_0.name == skel_args.name && r->Ok_0.skeleton == skel_args.skeleton
            },
        },
{
    let mut skel_args = skel_args;
    if skel_args.skeleton.is_none() && skel_args.skeleton_file.is_none() {
        return Err(arg_error("Error: did not get a skeleton or skeleton-file to make"));
    }
    if skel_args.name.is_some() && skel_args.skeleton_file.is_some() && skel_args.skeleton.is_some() {
        return Err(arg_error("Error: both a skeleton and a skeleton-file given"));
    }
    if skel_args.skeleton.is_some() && (skel_args.name.is_none() && skel_args.skeleton_file.is_none()) {
        return Err(arg_error("Error: did not get enough args"));
    }
    if skel_args.skeleton_file.is_some() && (skel_args.skeleton.is_none() && skel_args.name.is_none()) {
        return Err(arg_error("Error: did not get a project name to make"));
    }
    // with a skeleton file and one positional argument, that argument is the
    // name
    if skel_args.name.is_none() && (skel_args.skeleton.is_some() && skel_args.skeleton_file.is_some()) {
        skel_args.name = skel_args.skeleton.take();
    }
    Ok(skel_args)
}

} // verus!
