//! The user's configuration of project types, the lookup of a type by name
//! or alias, and the assembly of a project from its definition.
use crate::cli::SkelArgs;
use crate::config::{entry_views, opt_strings};
use crate::project::{with_texts, Project, ProjectConfig};
use crate::skel_error::{SkelErrType, SkelError};
use crate::template::{substitute, template, TemplateArgs};
use crate::text::{contains_string, push_str, strings};
use crate::tree::{entry_sources, text_views, MissingText};
use vstd::prelude::*;

verus! {

/// The project types a user has: each type's definition path, and each
/// type's aliases.
#[derive(Debug)]
pub struct UserConfig {
    pub projects: Vec<(String, String)>,
    pub alias: Vec<(String, Vec<String>)>,
}

impl UserConfig {
    pub open spec fn projects_view(&self) -> Seq<(Seq<char>, Seq<char>)> {
        self.projects@.map_values(|p: (String, String)| (p.0@, p.1@))
    }

    pub open spec fn alias_view(&self) -> Seq<(Seq<char>, Seq<Seq<char>>)> {
        self.alias@.map_values(|a: (String, Vec<String>)| (a.0@, strings(a.1@)))
    }

    /// Each type appears once among the projects and once among the alias
    /// lists, as in the maps that the configuration file holds.
    pub open spec fn wf(&self) -> bool {
        &&& forall|a: int, b: int|
            0 <= a < self.projects_view().len() && 0 <= b < self.projects_view().len() && a != b
                ==> #[trigger] self.projects_view()[a].0 != #[trigger] self.projects_view()[b].0
        &&& forall|a: int, b: int|
            0 <= a < self.alias_view().len() && 0 <= b < self.alias_view().len() && a != b
                ==> #[trigger] self.alias_view()[a].0 != #[trigger] self.alias_view()[b].0
    }
}

proof fn lemma_project_named_at(ps: Seq<(Seq<char>, Seq<char>)>, t: Seq<char>, j: int, at: int)
    requires
        0 <= j <= at < ps.len(),
        ps[at].0 == t,
        forall|k: int| j <= k < at ==> #[trigger] ps[k].0 != t,
    ensures
        project_named(ps, t, j) == Some(ps[at].1),
    decreases at - j,
{
    if j < at {
        lemma_project_named_at(ps, t, j + 1, at);
    }
}

/// In a configuration whose types are unique, the project of a given name
/// is the one entry of that name.
pub proof fn lemma_project_named_unique(uc: UserConfig, at: int)
    requires
        uc.wf(),
        0 <= at < uc.projects_view().len(),
    ensures
        project_named(uc.projects_view(), uc.projects_view()[at].0, 0) == Some(
            uc.projects_view()[at].1,
        ),
{
    let ps = uc.projects_view();
    assert forall|k: int| 0 <= k < at implies #[trigger] ps[k].0 != ps[at].0 by {
        assert(ps[k].0 != ps[at].0);
    }
    lemma_project_named_at(ps, ps[at].0, 0, at);
}

/// The path of the first project from `i` on named `t`.
pub open spec fn project_named(ps: Seq<(Seq<char>, Seq<char>)>, t: Seq<char>, i: int) -> Option<
    Seq<char>,
>
    decreases ps.len() - i,
{
    if i < 0 || i >= ps.len() {
        None
    } else if ps[i].0 == t {
        Some(ps[i].1)
    } else {
        project_named(ps, t, i + 1)
    }
}

/// The first type from `i` on that has `t` among its aliases.
pub open spec fn alias_owner(al: Seq<(Seq<char>, Seq<Seq<char>>)>, t: Seq<char>, i: int) -> Option<
    Seq<char>,
>
    decreases al.len() - i,
{
    if i < 0 || i >= al.len() {
        None
    } else if al[i].1.contains(t) {
        Some(al[i].0)
    } else {
        alias_owner(al, t, i + 1)
    }
}

pub open spec fn unknown_type_message(t: Seq<char>) -> Seq<char> {
    "given project type not in user config -- "@ + t
}

pub open spec fn no_project_message(t: Seq<char>) -> Seq<char> {
    "no project for that alias -- "@ + t
}

/// The definition path of type `t`: a type of that name first, else the type
/// that has `t` as an alias; the error message otherwise.
pub open spec fn project_lookup(uc: UserConfig, t: Seq<char>) -> Result<Seq<char>, Seq<char>> {
    match project_named(uc.projects_view(), t, 0) {
        Some(p) => Ok(p),
        None => match alias_owner(uc.alias_view(), t, 0) {
            None => Err(unknown_type_message(t)),
            Some(owner) => match project_named(uc.projects_view(), owner, 0) {
                Some(p) => Ok(p),
                None => Err(no_project_message(t)),
            },
        },
    }
}

/// The path of the first project from `i` on named `t`.
fn find_project(projects: &Vec<(String, String)>, t: &String) -> (r: Option<String>)
    ensures
        match project_named(projects@.map_values(|p: (String, String)| (p.0@, p.1@)), t@, 0) {
            Some(p) => r is Some && r->Some_0@ == p,
            None => r is None,
        },
{
    let ghost ps = projects@.map_values(|p: (String, String)| (p.0@, p.1@));
    let mut i: usize = 0;
    while i < projects.len()
        invariant
            i <= projects.len(),
            ps == projects@.map_values(|p: (String, String)| (p.0@, p.1@)),
            project_named(ps, t@, 0) == project_named(ps, t@, i as int),
        decreases projects.len() - i,
    {
        if projects[i].0 == *t {
            return Some(projects[i].1.clone());
        }
        i += 1;
    }
    None
}

/// The first type that has `t` among its aliases.
fn find_alias_owner(alias: &Vec<(String, Vec<String>)>, t: &String) -> (r: Option<String>)
    ensures
        match alias_owner(alias@.map_values(|a: (String, Vec<String>)| (a.0@, strings(a.1@))), t@, 0) {
            Some(o) => r is Some && r->Some_0@ == o,
            None => r is None,
        },
{
    let ghost al = alias@.map_values(|a: (String, Vec<String>)| (a.0@, strings(a.1@)));
    let mut i: usize = 0;
    while i < alias.len()
        invariant
            i <= alias.len(),
            al == alias@.map_values(|a: (String, Vec<String>)| (a.0@, strings(a.1@))),
            alias_owner(al, t@, 0) == alias_owner(al, t@, i as int),
        decreases alias.len() - i,
    {
        if contains_string(&alias[i].1, t) {
            return Some(alias[i].0.clone());
        }
        i += 1;
    }
    None
}

/// The definition path of the project type `type_string`, found by name or
/// else by alias; the first entry that matches, which is the only one where
/// the configuration is well formed.
pub fn find_project_file(user_config: &UserConfig, type_string: String) -> (r: Result<String, SkelError>)
    ensures
        match project_lookup(*user_config, type_string@) {
            Ok(p) => r is Ok && r->Ok_0@ == p,
            Err(m) => r is Err && r->Err_0.err_type == SkelErrType::NotFound && r->Err_0.err_str@
                == m,
        },
{
    if let Some(path_string) = find_project(&user_config.projects, &type_string) {
        return Ok(path_string);
    }
    let owner = find_alias_owner(&user_config.alias, &type_string);
    match owner {
        None => {
            let mut msg = String::new();
            push_str(&mut msg, "given project type not in user config -- ");
            push_str(&mut msg, type_string.as_str());
            Err(SkelError::new(SkelErrType::NotFound, msg))
        },
        Some(project) => match find_project(&user_config.projects, &project) {
            Some(p) => Ok(p),
            None => {
                let mut msg = String::new();
                push_str(&mut msg, "no project for that alias -- ");
                push_str(&mut msg, type_string.as_str());
                Err(SkelError::new(SkelErrType::NotFound, msg))
            },
        },
    }
}

/// The definition path of a project type with the configuration directory
/// substituted; the name and root are not known yet and stand empty.
pub fn project_path_with_templateing(type_str: String, user_config: &UserConfig, config_dir: &str) -> (r:
    Result<String, SkelError>)
    ensures
        match project_lookup(*user_config, type_str@) {
            Ok(p) => r is Ok && r->Ok_0@ == substitute(p, Seq::empty(), Seq::empty(), config_dir@),
            Err(m) => r is Err && r->Err_0.err_type == SkelErrType::NotFound && r->Err_0.err_str@
                == m,
        },
{
    let p_string = match find_project_file(user_config, type_str) {
        Ok(p) => p,
        Err(e) => return Err(e),
    };
    proof {
        reveal_strlit("");
        assert(""@ =~= Seq::<char>::empty());
    }
    let args = TemplateArgs { project_name: "", project_root_path: "", skel_config_path: config_dir };
    Ok(template(&args, p_string.as_str()))
}

/// The project's root: the directory given on the command line, else the
/// current one, with the project's name below it.
pub open spec fn project_root(name: Seq<char>, root_from_cli: Option<Seq<char>>, current_dir: Seq<char>) -> Seq<
    char,
> {
    let base = match root_from_cli {
        Some(r) => r,
        None => current_dir,
    };
    base + "/"@ + name
}

pub fn resolve_project_root(name: &str, root_from_cli: &Option<String>, current_dir: &str) -> (r: String)
    ensures
        r@ == project_root(name@, crate::config::opt_view(*root_from_cli), current_dir@),
{
    let mut r_string = match root_from_cli {
        Some(from_cli) => from_cli.clone(),
        None => current_dir.to_owned(),
    };
    push_str(&mut r_string, "/");
    push_str(&mut r_string, name);
    r_string
}

pub open spec fn nothing_to_do_message() -> Seq<char> {
    "project dose not have anything to do"@
}

/// A definition with no directory, file, template or build script has
/// nothing to do.
pub open spec fn is_empty_definition(c: ProjectConfig) -> bool {
    opt_strings(c.dirs).len() == 0 && opt_strings(c.files).len() == 0 && entry_views(c.templates).len()
        == 0 && c.build is None
}

fn list_is_empty(o: &Option<Vec<String>>) -> (r: bool)
    ensures
        r == (opt_strings(*o).len() == 0),
{
    match o {
        Some(v) => v.len() == 0,
        None => true,
    }
}

/// Assembles the project that the arguments ask for from its definition
/// `file_config`, read from the configuration directory `config_dir`, with
/// `texts[k]` the text read for template entry `k`: the root is resolved,
/// the template texts are put in place, and a definition with nothing to do
/// is refused. The build runs first where the command line or the
/// definition asks for it.
pub fn resolve_default(
    args: SkelArgs,
    file_config: ProjectConfig,
    config_dir: &str,
    current_dir: &str,
    texts: &Vec<Option<String>>,
) -> (r: Result<Project, SkelError>)
    ensures
        ({
            let root = project_root(
                args.name@,
                crate::config::opt_view(args.different_root),
                current_dir@,
            );
            match entry_sources(
                MissingText::ByNameAndPath,
                (args.name@, root, config_dir@),
                entry_views(file_config.templates),
                text_views(texts@),
                entry_views(file_config.templates).len() as int,
            ) {
                Err(m) => r is Err && r->Err_0.err_type == SkelErrType::ResolveError
                    && r->Err_0.err_str@ == m,
                Ok(ps) => if is_empty_definition(file_config) {
                    r is Err && r->Err_0.err_type == SkelErrType::ConfigError && r->Err_0.err_str@
                        == nothing_to_do_message()
                } else {
                    r is Ok && r->Ok_0.name@ == args.name@ && r->Ok_0.project_root_path@ == root
                        && r->Ok_0.project_root_string@ == root && r->Ok_0.config_dir_string@
                        == config_dir@ && r->Ok_0.dirs == file_config.dirs && r->Ok_0.files
                        == file_config.files && r->Ok_0.build == file_config.build
                        && (r->Ok_0.templates is Some == file_config.templates is Some)
                        && entry_views(r->Ok_0.templates) == with_texts(
                        entry_views(file_config.templates),
                        ps,
                    ) && r->Ok_0.build_first == (args.build_first || file_config.build_first
                        == Some(true)) && r->Ok_0.dont_make_template == args.dont_make_templates
                        && r->Ok_0.dont_run_build == args.dont_run_build
                        && r->Ok_0.show_build_output == args.show_build_output
                },
            }
        }),
{
    let root_string = resolve_project_root(args.name.as_str(), &args.different_root, current_dir);
    let mut file_config = file_config;
    file_config.resolve_project_templates(root_string.as_str(), args.name.as_str(), config_dir, texts)?;
    let no_templates = match &file_config.templates {
        Some(t) => t.len() == 0,
        None => true,
    };
    assert(no_templates == (entry_views(file_config.templates).len() == 0));
    if list_is_empty(&file_config.files) && list_is_empty(&file_config.dirs) && no_templates
        && file_config.build.is_none() {
        let mut msg = String::new();
        push_str(&mut msg, "project dose not have anything to do");
        return Err(SkelError::new(SkelErrType::ConfigError, msg));
    }
    let build_first = args.build_first || match file_config.build_first {
        Some(b) => b,
        None => false,
    };
    Ok(Project {
        build_first,
        dirs: file_config.dirs,
        files: file_config.files,
        build: file_config.build,
        templates: file_config.templates,
        config_dir_string: config_dir.to_owned(),
        name: args.name,
        project_root_path: root_string.clone(),
        project_root_string: root_string,
        dont_make_template: args.dont_make_templates,
        dont_run_build: args.dont_run_build,
        show_build_output: args.show_build_output,
    })
}

} // verus!
