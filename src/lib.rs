//! Resolution of project skeletons and the plan that materializes them.
//!
//! A skeleton definition lists directories, empty files, written files
//! (templates) and an optional build script. Paths and texts may hold three
//! slot markers, `{{name}}`, `{{root}}` and `{{config-dir}}`, replaced by a
//! literal one-pass substitution ([`template`]). A registry names the
//! skeletons and their aliases and refuses entries that share a key or an
//! alias ([`config`]). A definition resolves into a set of directories,
//! files and (destination, text) pairs ([`tree`]), and that set into an
//! ordered plan of file-system actions that refuses an existing root
//! ([`plan`]). The plan is carried out by the caller; nothing here touches
//! the file system.
pub mod args;
pub mod cli;
pub mod config;
pub mod defaults;
pub mod dry_run;
pub mod fs_tools;
pub mod new_rs_error;
pub mod order;
pub mod parse_args;
pub mod paths;
pub mod plan;
pub mod process_tools;
pub mod project;
pub mod skel_error;
pub mod skeleton;
pub mod system_tools;
pub mod template;
pub mod text;
pub mod tree;

use crate::config::{entry_views, opt_strings};
use crate::fs_tools::{all_texts, project_tree};
use crate::plan::{action_views, bash_script, exists_message, full_plan, make_tree, ActionView, FsAction};
use crate::project::Project;
use crate::skel_error::{SkelErrType, SkelError};
use crate::system_tools::call_build_script;
use crate::tree::{tree_dirs, tree_files, tree_templates};
use vstd::prelude::*;

verus! {

/// The build step of a project: none where the build is switched off or the
/// project has no script.
pub open spec fn project_build(p: Project) -> Option<ActionView> {
    match p.build {
        Some(b) if !p.dont_run_build => Some(
            ActionView::RunBuild(bash_script(p.slots(), b@), p.project_root_path@, p.show_build_output),
        ),
        _ => None,
    }
}

/// The plan that makes a new project: an error where a template entry has
/// no text; then nothing where its root exists already; else the build
/// script first where asked, the tree, and the build script last otherwise.
pub fn make_project(project: &Project, root_exists: bool) -> (r: Result<Vec<FsAction>, SkelError>)
    ensures
        match all_texts(*project) {
            Err(m) => r is Err && r->Err_0.err_type == SkelErrType::ResolveError && r->Err_0.err_str@
                == m,
            Ok(ps) => if root_exists {
                r is Err && r->Err_0.err_type == SkelErrType::ProjectExists && r->Err_0.err_str@
                    == exists_message(project.project_root_path@)
            } else {
                r is Ok && action_views(r->Ok_0@) == full_plan(
                    project.project_root_path@,
                    tree_dirs(
                        project.path_slots(),
                        opt_strings(project.dirs),
                        opt_strings(project.files),
                        ps,
                    ),
                    tree_files(project.path_slots(), opt_strings(project.files)),
                    tree_templates(project.path_slots(), ps),
                    !project.dont_make_template,
                    project_build(*project),
                    project.build_first,
                )
            },
        },
{
    let build = if !project.dont_run_build && project.build.is_some() {
        match call_build_script(project) {
            Ok(cmd) => Some(cmd),
            Err(_) => None,
        }
    } else {
        None
    };
    let tree = project_tree(project)?;
    make_tree(
        &tree,
        project.project_root_path.as_str(),
        root_exists,
        !project.dont_make_template,
        build,
        project.build_first,
    )
}

} // verus!
