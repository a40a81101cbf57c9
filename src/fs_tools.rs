//! The tree of a project and the actions that create it.
use crate::config::{entry_view, entry_views, opt_strings, SkelTemplate, TemplateEntryView};
use crate::plan::{action_views, tree_actions, tree_plan, FsAction};
use crate::project::Project;
use crate::skel_error::{SkelErrType, SkelError};
use crate::text::push_str;
use crate::template::TemplateArgs;
use crate::tree::{
    build_tree, entry_message, pair_views, tree_dirs, tree_files, tree_templates, ResolvedTree,
    TemplatePair,
};
use vstd::prelude::*;

verus! {

/// The (destination, text) pairs of the first `n` entries of a project, or
/// the error naming the first entry that has no text.
pub open spec fn project_texts(name: Seq<char>, ts: Seq<TemplateEntryView>, n: int) -> Result<
    Seq<TemplatePair>,
    Seq<char>,
>
    decreases n,
{
    if n <= 0 {
        Ok(Seq::empty())
    } else {
        match project_texts(name, ts, n - 1) {
            Err(m) => Err(m),
            Ok(ps) => match ts[n - 1].1 {
                Some(b) => Ok(ps.push((ts[n - 1].0, b))),
                None => Err(entry_message(name, ts[n - 1].0)),
            },
        }
    }
}

/// The texts of all the project's template entries.
pub open spec fn all_texts(p: Project) -> Result<Seq<TemplatePair>, Seq<char>> {
    project_texts(p.name@, entry_views(p.templates), entry_views(p.templates).len() as int)
}

proof fn lemma_project_texts_error_kept(name: Seq<char>, ts: Seq<TemplateEntryView>, k: int, n: int)
    requires
        1 <= k <= n,
        project_texts(name, ts, k) is Err,
    ensures
        project_texts(name, ts, n) == project_texts(name, ts, k),
    decreases n - k,
{
    if n > k {
        lemma_project_texts_error_kept(name, ts, k, n - 1);
    }
}

/// The project's tree: its directories, files and templates resolved, the
/// directory of each file and template added, each entry once. A template
/// entry without text is a configuration error.
pub fn project_tree(project: &Project) -> (r: Result<ResolvedTree, SkelError>)
    ensures
        match all_texts(*project) {
            Err(m) => r is Err && r->Err_0.err_type == SkelErrType::ResolveError && r->Err_0.err_str@
                == m,
            Ok(ps) => r is Ok && r->Ok_0.wf() && r->Ok_0.resolves(
                project.path_slots(),
                opt_strings(project.dirs),
                opt_strings(project.files),
                ps,
            ),
        },
{
    let args = TemplateArgs {
        project_name: project.name.as_str(),
        project_root_path: project.project_root_path.as_str(),
        skel_config_path: project.config_dir_string.as_str(),
    };
    let empty_dirs: Vec<String> = Vec::new();
    let empty_files: Vec<String> = Vec::new();
    let dirs = match &project.dirs {
        Some(d) => d,
        None => &empty_dirs,
    };
    let files = match &project.files {
        Some(f) => f,
        None => &empty_files,
    };
    assert(opt_strings(project.dirs) =~= crate::text::strings(dirs@));
    assert(opt_strings(project.files) =~= crate::text::strings(files@));
    let empty_templates: Vec<SkelTemplate> = Vec::new();
    let ts = match &project.templates {
        Some(t) => t,
        None => &empty_templates,
    };
    let ghost tv = entry_views(project.templates);
    let ghost name = project.name@;
    assert(entry_views(project.templates) =~= ts@.map_values(|t: SkelTemplate| entry_view(t)));
    let mut pairs: Vec<(String, String)> = Vec::new();
    assert(pair_views(pairs@) =~= Seq::<TemplatePair>::empty());
    let mut k: usize = 0;
    while k < ts.len()
        invariant
            k <= ts.len(),
            tv == ts@.map_values(|t: SkelTemplate| entry_view(t)),
            tv == entry_views(project.templates),
            name == project.name@,
            project_texts(name, tv, k as int) == Ok::<Seq<TemplatePair>, Seq<char>>(
                pair_views(pairs@),
            ),
        decreases ts.len() - k,
    {
        assert(tv[k as int] == entry_view(ts@[k as int]));
        match &ts[k].template {
            Some(s) => {
                let ghost before = pair_views(pairs@);
                pairs.push((ts[k].path.clone(), s.clone()));
                assert(pair_views(pairs@) =~= before.push((tv[k as int].0, s@)));
            },
            None => {
                let mut msg = String::new();
                push_str(&mut msg, "entry dose not have a template -- name ");
                push_str(&mut msg, project.name.as_str());
                push_str(&mut msg, " -- path ");
                push_str(&mut msg, ts[k].path.as_str());
                proof {
                    assert(project_texts(name, tv, k + 1) == Err::<Seq<TemplatePair>, Seq<char>>(
                        entry_message(name, tv[k as int].0),
                    ));
                    lemma_project_texts_error_kept(name, tv, k + 1, ts.len() as int);
                    assert(all_texts(*project) == project_texts(name, tv, ts.len() as int));
                }
                return Err(SkelError::new(SkelErrType::ResolveError, msg));
            },
        }
        k += 1;
    }
    assert(all_texts(*project) == project_texts(name, tv, ts.len() as int));
    Ok(build_tree(&args, dirs, files, &pairs))
}

/// The actions that make the project's tree under its root: the root, the
/// directories, the empty files, and, unless templates are switched off, the
/// written files; an error where a template entry has no text.
pub fn make_project_tree(project: &Project) -> (r: Result<Vec<FsAction>, SkelError>)
    ensures
        match all_texts(*project) {
            Err(m) => r is Err && r->Err_0.err_type == SkelErrType::ResolveError && r->Err_0.err_str@
                == m,
            Ok(ps) => r is Ok && action_views(r->Ok_0@) == tree_plan(
                project.project_root_path@,
                tree_dirs(
                    project.path_slots(),
                    opt_strings(project.dirs),
                    opt_strings(project.files),
                    ps,
                ),
                tree_files(project.path_slots(), opt_strings(project.files)),
                tree_templates(project.path_slots(), ps),
                !project.dont_make_template,
            ),
        },
{
    let tree = project_tree(project)?;
    Ok(tree_actions(&tree, project.project_root_path.as_str(), !project.dont_make_template))
}

} // verus!
