//! The build step of a project: its script and where it runs.
use crate::plan::{bash_script, BuildCommand};
use crate::project::Project;
use crate::skel_error::{SkelErrType, SkelError};
use crate::text::push_str;
use vstd::prelude::*;

verus! {

pub open spec fn no_build_message() -> Seq<char> {
    "call_build_script was called without a build script to use"@
}

/// The project's build script behind a shebang line, with the slots
/// substituted.
pub fn make_bash_string(project: &Project) -> (r: String)
    requires
        project.build is Some,
    ensures
        r@ == bash_script(project.slots(), project.build->Some_0@),
{
    let mut bash_string = String::new();
    push_str(&mut bash_string, "#!/usr/bin/env bash\n\n");
    match &project.build {
        Some(b) => push_str(&mut bash_string, b.as_str()),
        None => {},
    }
    project.run_template(bash_string.as_str())
}

/// The command that runs the project's build script in its root; an error
/// where the project has no script.
pub fn call_build_script(project: &Project) -> (r: Result<BuildCommand, SkelError>)
    ensures
        match project.build {
            Some(b) => r is Ok && r->Ok_0.script@ == bash_script(project.slots(), b@)
                && r->Ok_0.dir@ == project.project_root_path@ && r->Ok_0.show_output
                == project.show_build_output,
            None => r is Err && r->Err_0.err_type == SkelErrType::BoxError && r->Err_0.err_str@
                == no_build_message(),
        },
{
    if project.build.is_none() {
        let mut msg = String::new();
        push_str(&mut msg, "call_build_script was called without a build script to use");
        return Err(SkelError::new(SkelErrType::BoxError, msg));
    }
    let script = make_bash_string(project);
    Ok(BuildCommand {
        script,
        dir: project.project_root_path.clone(),
        show_output: project.show_build_output,
    })
}

} // verus!
