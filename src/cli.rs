//! The command-line arguments of the project maker, as values.
use vstd::prelude::*;

verus! {

/// What the command line asked for.
#[derive(Default, Debug)]
pub struct SkelArgs {
    /// the name of the new project
    pub name: String,
    /// the project type or alias to make
    pub type_str: Option<String>,
    /// a root to make the project in, in place of the current directory
    pub different_root: Option<String>,
    /// a configuration file in place of the default one
    pub cli_config_path: Option<String>,
    /// a project file to use in place of a lookup
    pub cli_project_file: Option<String>,
    pub dont_run_build: bool,
    pub dont_make_templates: bool,
    pub build_first: bool,
    pub show_build_output: bool,
}

} // verus!
