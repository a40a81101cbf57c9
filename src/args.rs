//! The command-line arguments of the first project maker, and the rules on
//! which of them go together.
use crate::skel_error::{SkelErrType, SkelError};
use crate::text::push_str;
use vstd::prelude::*;

verus! {

/// What the command line asked for.
#[derive(Default, Debug)]
pub struct SkelArgs {
    pub name: String,
    pub alias_str: String,
    pub different_root: Option<String>,
    pub cli_config_path: Option<String>,
    pub cli_project_file: Option<String>,
    pub dont_run_build: bool,
    pub dont_make_templates: bool,
    pub build_first: bool,
    pub show_build_output: bool,
}

pub open spec fn alias_and_file_message() -> Seq<char> {
    "can not use --project-file with an ALIAS"@
}

pub open spec fn too_few_message() -> Seq<char> {
    "to few args given"@
}

/// The error that the positional arguments and the project file call for.
pub open spec fn info_error(alias: bool, file: bool, name: bool) -> Option<Seq<char>> {
    if alias && file && name {
        Some(alias_and_file_message())
    } else if !name && !alias && !file {
        Some(too_few_message())
    } else if alias && !file && !name {
        Some(too_few_message())
    } else {
        None
    }
}

pub open spec fn opt_str_view(o: Option<&str>) -> Option<Seq<char>> {
    match o {
        Some(s) => Some(s@),
        None => None,
    }
}

fn info_err(msg: &str) -> (r: SkelError)
    ensures
        r.err_type == SkelErrType::BoxError,
        r.err_str@ == msg@,
{
    let mut s = String::new();
    push_str(&mut s, msg);
    SkelError::new(SkelErrType::BoxError, s)
}

/// Checks that the arguments name a project: an alias with a name, or a
/// project file, but not an alias, a file and a name at once.
pub fn project_info_check(
    project_alias: Option<&str>,
    project_file: Option<&str>,
    project_name: Option<&str>,
) -> (r: Result<(), SkelError>)
    ensures
        match info_error(project_alias is Some, project_file is Some, project_name is Some) {
            Some(m) => r is Err && r->Err_0.err_type == SkelErrType::BoxError && r->Err_0.err_str@
                == m,
            None => r is Ok,
        },
{
    if project_alias.is_some() && project_file.is_some() && project_name.is_some() {
        Err(info_err("can not use --project-file with an ALIAS"))
    } else if project_name.is_none() && project_alias.is_none() && project_file.is_none() {
        Err(info_err("to few args given"))
    } else if project_alias.is_some() && (project_file.is_none() && project_name.is_none()) {
        Err(info_err("to few args given"))
    } else {
        Ok(())
    }
}

fn owned(o: Option<&str>) -> (r: Option<String>)
    ensures
        crate::config::opt_view(r) == opt_str_view(o),
{
    match o {
        Some(s) => Some(s.to_owned()),
        None => None,
    }
}

/// The arguments from the values on the command line: the alias where no
/// project file is given, the name, or else the alias as the name.
pub fn parse_args(
    project_alias: Option<&str>,
    project_file: Option<&str>,
    project_name: Option<&str>,
    different_root: Option<&str>,
    different_config_path: Option<&str>,
    no_templating: bool,
    no_build: bool,
    run_build_first: bool,
    show_build_output: bool,
) -> (r: Result<SkelArgs, SkelError>)
    ensures
        match info_error(project_alias is Some, project_file is Some, project_name is Some) {
            Some(m) => r is Err && r->Err_0.err_type == SkelErrType::BoxError && r->Err_0.err_str@
                == m,
            None => r is Ok && r->Ok_0.alias_str@ == (match (project_alias, project_file) {
                (Some(a), None) => a@,
                _ => Seq::empty(),
            }) && r->Ok_0.name@ == (match (project_name, project_alias) {
                (Some(n), _) => n@,
                (None, Some(a)) => a@,
                _ => Seq::empty(),
            }) && crate::config::opt_view(r->Ok_0.different_root) == opt_str_view(different_root)
                && crate::config::opt_view(r->Ok_0.cli_project_file) == opt_str_view(project_file)
                && crate::config::opt_view(r->Ok_0.cli_config_path) == opt_str_view(
                different_config_path,
            ) && r->Ok_0.dont_make_templates == no_templating && r->Ok_0.dont_run_build == no_build
                && r->Ok_0.build_first == run_build_first && r->Ok_0.show_build_output
                == show_build_output,
        },
{
    match project_info_check(project_alias, project_file, project_name) {
        Ok(()) => {},
        Err(e) => return Err(e),
    }
    let alias_str = match (project_alias, project_file) {
        (Some(a), None) => a.to_owned(),
        _ => String::new(),
    };
    let name = match (project_name, project_alias) {
        (Some(n), _) => n.to_owned(),
        (None, Some(a)) => a.to_owned(),
        _ => String::new(),
    };
    Ok(SkelArgs {
        name,
        alias_str,
        different_root: owned(different_root),
        cli_config_path: owned(different_config_path),
        cli_project_file: owned(project_file),
        dont_run_build: no_build,
        dont_make_templates: no_templating,
        build_first: run_build_first,
        show_build_output,
    })
}

} // verus!
