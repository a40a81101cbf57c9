//! The ordered file-system actions that materialize a resolved tree: the
//! check on the destination root comes first, then directories, empty files
//! and written files, with the build script before or after them.
use crate::config::RunConfig;
use crate::skel_error::{SkelErrType, SkelError};
use crate::template::{template, TemplateArgs};
use crate::text::push_str;
use crate::config::{entry_views, opt_strings};
use crate::tree::{
    entry_sources, resolve_tree, slots_of, subst, text_views, tree_dirs, tree_files,
    tree_templates, MissingText, ResolvedTree, Slots, TemplatePair,
};
use vstd::prelude::*;

verus! {

/// A build script to run, and the directory to run it in.
#[derive(Debug)]
pub struct BuildCommand {
    pub script: String,
    pub dir: String,
    pub show_output: bool,
}

/// One step of materialization.
#[derive(Debug)]
pub enum FsAction {
    /// Create the directory and its missing ancestors; an existing one is fine.
    CreateDir(String),
    /// Create an empty file, truncating an existing one.
    CreateFile(String),
    /// Create or truncate the file and write the text into it.
    WriteFile(String, String),
    /// Run the build script.
    RunBuild(BuildCommand),
}

/// A step as values.
pub enum ActionView {
    CreateDir(Seq<char>),
    CreateFile(Seq<char>),
    WriteFile(Seq<char>, Seq<char>),
    RunBuild(Seq<char>, Seq<char>, bool),
}

impl BuildCommand {
    pub open spec fn action(&self) -> ActionView {
        ActionView::RunBuild(self.script@, self.dir@, self.show_output)
    }

    /// A copy of the command.
    pub fn duplicate(&self) -> (r: BuildCommand)
        ensures
            r.action() == self.action(),
    {
        BuildCommand { script: self.script.clone(), dir: self.dir.clone(), show_output: self.show_output }
    }
}

impl View for FsAction {
    type V = ActionView;

    open spec fn view(&self) -> ActionView {
        match self {
            FsAction::CreateDir(p) => ActionView::CreateDir(p@),
            FsAction::CreateFile(p) => ActionView::CreateFile(p@),
            FsAction::WriteFile(p, s) => ActionView::WriteFile(p@, s@),
            FsAction::RunBuild(b) => b.action(),
        }
    }
}

pub open spec fn action_views(v: Seq<FsAction>) -> Seq<ActionView> {
    v.map_values(|a: FsAction| a@)
}

/// The shell script for a build body: a shebang line, a blank line, the
/// body, with the slots substituted in the whole.
pub open spec fn bash_script(v: Slots, build: Seq<char>) -> Seq<char> {
    subst(v, "#!/usr/bin/env bash\n\n"@ + build)
}

pub open spec fn exists_message(root: Seq<char>) -> Seq<char> {
    "project destination exists -- "@ + root
}

/// Create the root, then each directory, then each empty file, then, where
/// `with_templates`, write each template.
pub open spec fn tree_plan(
    root: Seq<char>,
    dirs: Seq<Seq<char>>,
    files: Seq<Seq<char>>,
    templates: Seq<TemplatePair>,
    with_templates: bool,
) -> Seq<ActionView> {
    seq![ActionView::CreateDir(root)] + dirs.map_values(|d: Seq<char>| ActionView::CreateDir(d))
        + files.map_values(|f: Seq<char>| ActionView::CreateFile(f)) + if with_templates {
        templates.map_values(|t: TemplatePair| ActionView::WriteFile(t.0, t.1))
    } else {
        Seq::empty()
    }
}

/// The tree's plan with the build step before it where `build_first`, after
/// it otherwise, and none where there is no build.
pub open spec fn full_plan(
    root: Seq<char>,
    dirs: Seq<Seq<char>>,
    files: Seq<Seq<char>>,
    templates: Seq<TemplatePair>,
    with_templates: bool,
    build: Option<ActionView>,
    build_first: bool,
) -> Seq<ActionView> {
    let before = match build {
        Some(b) if build_first => seq![b],
        _ => Seq::empty(),
    };
    let after = match build {
        Some(b) if !build_first => seq![b],
        _ => Seq::empty(),
    };
    before + tree_plan(root, dirs, files, templates, with_templates) + after
}

pub open spec fn opt_action(b: Option<BuildCommand>) -> Option<ActionView> {
    match b {
        Some(c) => Some(c.action()),
        None => None,
    }
}

/// The command that runs `build` in `root`.
pub fn build_command(args: &TemplateArgs, build: &str, show_output: bool) -> (r: BuildCommand)
    ensures
        r.script@ == bash_script(slots_of(*args), build@),
        r.dir@ == args.project_root_path@,
        r.show_output == show_output,
{
    let mut bash_string = String::new();
    push_str(&mut bash_string, "#!/usr/bin/env bash\n\n");
    push_str(&mut bash_string, build);
    let script = template(args, bash_string.as_str());
    BuildCommand { script, dir: args.project_root_path.to_owned(), show_output }
}

/// Appends the actions that create `tree` under `root`.
fn append_tree_actions(out: &mut Vec<FsAction>, tree: &ResolvedTree, root: &str, with_templates: bool)
    ensures
        action_views(final(out)@) == action_views(old(out)@) + tree_plan(
            root@,
            tree.dirs_view(),
            tree.files_view(),
            tree.templates_view(),
            with_templates,
        ),
{
    let ghost start = action_views(out@);
    out.push(FsAction::CreateDir(root.to_owned()));
    let ghost d = tree.dirs_view().map_values(|d: Seq<char>| ActionView::CreateDir(d));
    let ghost f = tree.files_view().map_values(|f: Seq<char>| ActionView::CreateFile(f));
    let ghost w = tree.templates_view().map_values(|t: TemplatePair| ActionView::WriteFile(t.0, t.1));
    let ghost head = start + seq![ActionView::CreateDir(root@)];
    assert(action_views(out@) =~= head);
    let mut i: usize = 0;
    while i < tree.dirs.len()
        invariant
            i <= tree.dirs.len(),
            d == tree.dirs_view().map_values(|d: Seq<char>| ActionView::CreateDir(d)),
            action_views(out@) == head + d.take(i as int),
        decreases tree.dirs.len() - i,
    {
        let ghost before = action_views(out@);
        out.push(FsAction::CreateDir(tree.dirs[i].clone()));
        assert(action_views(out@) =~= before.push(d[i as int]));
        assert(d.take(i + 1) =~= d.take(i as int).push(d[i as int]));
        assert(action_views(out@) =~= head + d.take(i + 1));
        i += 1;
    }
    assert(d.take(tree.dirs.len() as int) =~= d);
    let ghost head2 = head + d;
    let mut i: usize = 0;
    while i < tree.files.len()
        invariant
            i <= tree.files.len(),
            f == tree.files_view().map_values(|f: Seq<char>| ActionView::CreateFile(f)),
            action_views(out@) == head2 + f.take(i as int),
        decreases tree.files.len() - i,
    {
        let ghost before = action_views(out@);
        out.push(FsAction::CreateFile(tree.files[i].clone()));
        assert(action_views(out@) =~= before.push(f[i as int]));
        assert(f.take(i + 1) =~= f.take(i as int).push(f[i as int]));
        assert(action_views(out@) =~= head2 + f.take(i + 1));
        i += 1;
    }
    assert(f.take(tree.files.len() as int) =~= f);
    let ghost head3 = head2 + f;
    if with_templates {
        let mut i: usize = 0;
        while i < tree.templates.len()
            invariant
                i <= tree.templates.len(),
                w == tree.templates_view().map_values(
                    |t: TemplatePair| ActionView::WriteFile(t.0, t.1),
                ),
                action_views(out@) == head3 + w.take(i as int),
            decreases tree.templates.len() - i,
        {
            let (p, s) = &tree.templates[i];
            let ghost before = action_views(out@);
            out.push(FsAction::WriteFile(p.clone(), s.clone()));
            assert(action_views(out@) =~= before.push(w[i as int]));
            assert(w.take(i + 1) =~= w.take(i as int).push(w[i as int]));
            assert(action_views(out@) =~= head3 + w.take(i + 1));
            i += 1;
        }
        assert(w.take(tree.templates.len() as int) =~= w);
        assert(action_views(out@) =~= head3 + w);
    } else {
        assert(action_views(out@) =~= head3 + Seq::<ActionView>::empty());
    }
    assert(action_views(out@) =~= start + tree_plan(
        root@,
        tree.dirs_view(),
        tree.files_view(),
        tree.templates_view(),
        with_templates,
    ));
}

/// The actions that create `tree` under `root`; templates are written only
/// where `with_templates`.
pub fn tree_actions(tree: &ResolvedTree, root: &str, with_templates: bool) -> (r: Vec<FsAction>)
    ensures
        action_views(r@) == tree_plan(
            root@,
            tree.dirs_view(),
            tree.files_view(),
            tree.templates_view(),
            with_templates,
        ),
{
    let mut out: Vec<FsAction> = Vec::new();
    assert(action_views(out@) =~= Seq::<ActionView>::empty());
    append_tree_actions(&mut out, tree, root, with_templates);
    assert(action_views(out@) =~= Seq::<ActionView>::empty() + tree_plan(
        root@,
        tree.dirs_view(),
        tree.files_view(),
        tree.templates_view(),
        with_templates,
    ));
    out
}



/// The plan that materializes `tree` under `root`. Where the root exists
/// already it fails with nothing to do; otherwise it succeeds, whatever the
/// tree holds.
pub fn make_tree(
    tree: &ResolvedTree,
    root: &str,
    root_exists: bool,
    with_templates: bool,
    build: Option<BuildCommand>,
    build_first: bool,
) -> (r: Result<Vec<FsAction>, SkelError>)
    ensures
        root_exists <==> r is Err,
        r is Err ==> r->Err_0.err_type == SkelErrType::ProjectExists && r->Err_0.err_str@
            == exists_message(root@),
        r is Ok ==> action_views(r->Ok_0@) == full_plan(
            root@,
            tree.dirs_view(),
            tree.files_view(),
            tree.templates_view(),
            with_templates,
            opt_action(build),
            build_first,
        ),
{
    if root_exists {
        let mut msg = String::new();
        push_str(&mut msg, "project destination exists -- ");
        push_str(&mut msg, root);
        return Err(SkelError::new(SkelErrType::ProjectExists, msg));
    }
    let mut out: Vec<FsAction> = Vec::new();
    match &build {
        Some(b) if build_first => {
            out.push(FsAction::RunBuild(b.duplicate()));
        },
        _ => {},
    }
    append_tree_actions(&mut out, tree, root, with_templates);
    let ghost mid = action_views(out@);
    match &build {
        Some(b) if !build_first => {
            out.push(FsAction::RunBuild(b.duplicate()));
        },
        _ => {},
    }
    assert(action_views(out@) =~= full_plan(
        root@,
        tree.dirs_view(),
        tree.files_view(),
        tree.templates_view(),
        with_templates,
        opt_action(build),
        build_first,
    ));
    Ok(out)
}

/// The build step of a run: the definition's script, run in the root with
/// its output shown.
pub open spec fn run_build(rc: RunConfig) -> Option<ActionView> {
    match rc.skel_conf.build {
        Some(b) => Some(ActionView::RunBuild(bash_script(rc.slots(), b@), rc.root_path@, true)),
        None => None,
    }
}

pub open spec fn run_build_first(rc: RunConfig) -> bool {
    match rc.skel_conf.build_first {
        Some(b) => b,
        None => false,
    }
}

/// Resolves the run's definition (with `texts[k]` the text read for template
/// entry `k`) and plans its materialization under the run's root: a
/// resolution error comes first, then the check that the root does not exist.
pub fn make_project_tree(run_conf: &RunConfig, texts: &Vec<Option<String>>, root_exists: bool) -> (r:
    Result<Vec<FsAction>, SkelError>)
    ensures
        match entry_sources(
            MissingText::ByDestination,
            run_conf.slots(),
            entry_views(run_conf.skel_conf.templates),
            text_views(texts@),
            entry_views(run_conf.skel_conf.templates).len() as int,
        ) {
            Err(m) => r is Err && r->Err_0.err_type == SkelErrType::ResolveError && r->Err_0.err_str@
                == m,
            Ok(ps) => if root_exists {
                r is Err && r->Err_0.err_type == SkelErrType::ProjectExists && r->Err_0.err_str@
                    == exists_message(run_conf.root_path@)
            } else {
                r is Ok && action_views(r->Ok_0@) == full_plan(
                    run_conf.root_path@,
                    tree_dirs(
                        run_conf.slots(),
                        opt_strings(run_conf.skel_conf.dirs),
                        opt_strings(run_conf.skel_conf.files),
                        ps,
                    ),
                    tree_files(run_conf.slots(), opt_strings(run_conf.skel_conf.files)),
                    tree_templates(run_conf.slots(), ps),
                    true,
                    run_build(*run_conf),
                    run_build_first(*run_conf),
                )
            },
        },
{
    let tree = resolve_tree(run_conf, texts)?;
    let args = run_conf.template_args();
    let build = match &run_conf.skel_conf.build {
        Some(b) => Some(build_command(&args, b.as_str(), true)),
        None => None,
    };
    let build_first = match run_conf.skel_conf.build_first {
        Some(b) => b,
        None => false,
    };
    make_tree(&tree, run_conf.root_path.as_str(), root_exists, true, build, build_first)
}

} // verus!
