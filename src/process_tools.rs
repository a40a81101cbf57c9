//! The build step of a skeleton: its script and where it runs.
use crate::plan::{bash_script, BuildCommand};
use crate::skeleton::Skeleton;
use crate::text::push_str;
use vstd::prelude::*;

verus! {

/// The skeleton's build script behind a shebang line, with the slots
/// substituted.
pub fn make_bash_string(project: &Skeleton) -> (r: String)
    requires
        project.build is Some,
    ensures
        r@ == bash_script(project.slots(), project.build->Some_0@),
{
    let mut bash_string = String::new();
    push_str(&mut bash_string, "#!/usr/bin/env bash\n\n");
    match &project.build {
        Some(b) => push_str(&mut bash_string, b.as_str()),
        None => {},
    }
    project.run_template(bash_string.as_str())
}

/// The command that runs the skeleton's build script in its root; nothing to
/// run where it has none.
pub fn call_build_script(project: &Skeleton) -> (r: Option<BuildCommand>)
    ensures
        match project.build {
            Some(b) => r is Some && r->Some_0.script@ == bash_script(project.slots(), b@)
                && r->Some_0.dir@ == project.project_root_string@ && r->Some_0.show_output
                == project.show_build_output,
            None => r is None,
        },
{
    // if no build script present then just return
    if project.build.is_none() {
        return None;
    }
    let script = make_bash_string(project);
    Some(BuildCommand {
        script,
        dir: project.project_root_string.clone(),
        show_output: project.show_build_output,
    })
}

} // verus!
