use skel::config::{check_config, skeleton_path_from_config, MainConfig, RunConfig, SkelConfig, SkelTemplate, Skeleton};
use skel::defaults::resolve_default;
use skel::dry_run::dry_run_lines;
use skel::fs_tools::make_project_tree;
use skel::make_project;
use skel::new_rs_error::{NewInnerErrType, NewInnerError};
use skel::paths::{anchor_path, parent_dir};
use skel::plan::{make_tree, tree_actions, BuildCommand, FsAction};
use skel::project::Project;
use skel::skel_error::{SkelErrType, SkelError};
use skel::template::{template, TemplateArgs};
use skel::tree::{build_tree, resolve_tree, source_paths, ResolvedTree};

fn args<'a>(name: &'a str, root: &'a str, conf: &'a str) -> TemplateArgs<'a> {
    TemplateArgs { project_name: name, project_root_path: root, skel_config_path: conf }
}

fn dir(p: &str) -> String {
    p.to_string()
}

fn action_text(a: &FsAction) -> String {
    match a {
        FsAction::CreateDir(p) => format!("dir {}", p),
        FsAction::CreateFile(p) => format!("file {}", p),
        FsAction::WriteFile(p, s) => format!("write {} <{}>", p, s),
        FsAction::RunBuild(b) => format!("build in {} <{}>", b.dir, b.script),
    }
}

#[test]
fn marker_free_text_is_unchanged() {
    let a = args("demo", "/tmp/demo", "/etc/skel");
    for s in ["", "plain text", "{{ name }} {name} {{other}} {{root", "}}{{", "{{config_dir}}"] {
        assert_eq!(template(&a, s), s);
    }
}

#[test]
fn each_marker_once_in_any_order() {
    let a = args("demo", "/tmp/demo", "/etc/skel");
    assert_eq!(template(&a, "n={{name}} r={{root}} c={{config-dir}}."), "n=demo r=/tmp/demo c=/etc/skel.");
    assert_eq!(template(&a, "{{config-dir}}/{{root}}/{{name}}"), "/etc/skel//tmp/demo/demo");
    assert_eq!(template(&a, "{{root}}{{config-dir}}{{name}}"), "/tmp/demo/etc/skeldemo");
}

#[test]
fn values_holding_markers_are_not_substituted_again() {
    let a = args("{{root}}", "R", "C");
    assert_eq!(template(&a, "{{name}}-{{root}}"), "{{root}}-R");
}

#[test]
fn every_occurrence_is_replaced() {
    let a = args("x", "/r", "/c");
    assert_eq!(template(&a, "{{name}}{{name}}{{{name}}}"), "xx{x}");
}

fn entry(key: &str, aliases: &[&str]) -> (String, Skeleton) {
    (
        key.to_string(),
        Skeleton {
            path: format!("{}.toml", key),
            aliases: aliases.iter().map(|s| s.to_string()).collect(),
        },
    )
}

#[test]
fn overlapping_aliases_fail_in_either_order() {
    let x = || entry("rs", &["r", "rust"]);
    let y = || entry("py", &["p", "rust"]);
    assert!(check_config(&MainConfig { skeletons: vec![x(), y()] }).is_err());
    assert!(check_config(&MainConfig { skeletons: vec![y(), x()] }).is_err());
}

#[test]
fn disjoint_entries_pass_in_either_order() {
    let x = || entry("rs", &["r", "rust"]);
    let y = || entry("py", &["p", "python"]);
    assert!(check_config(&MainConfig { skeletons: vec![x(), y()] }).is_ok());
    assert!(check_config(&MainConfig { skeletons: vec![y(), x()] }).is_ok());
}

#[test]
fn key_listed_as_other_alias_is_caught() {
    let config = MainConfig { skeletons: vec![entry("x", &["x"]), entry("y", &["y", "x"])] };
    let err = check_config(&config).unwrap_err();
    assert_eq!(err.kind(), SkelErrType::DuplicateAlias);
}

#[test]
fn key_used_as_alias_elsewhere_is_caught() {
    // "x" is a key, and the other entry lists it as an alias
    let config = MainConfig { skeletons: vec![entry("y", &["x"]), entry("x", &[])] };
    let err = check_config(&config).unwrap_err();
    assert_eq!(err.kind(), SkelErrType::DuplicateAlias);
    assert_eq!(
        err.into_string(),
        "duplicate keys or aliases found\n\
         keys [\x1b[31my\x1b[0m, \x1b[31mx\x1b[0m]\n    alias: [\x1b[31mx\x1b[0m]"
    );
}

#[test]
fn key_takes_precedence_over_alias_in_lookup() {
    let config = MainConfig { skeletons: vec![entry("y", &["x"]), entry("x", &[])] };
    assert_eq!(skeleton_path_from_config("x", &config).unwrap(), "x.toml");
}

fn small_tree() -> ResolvedTree {
    let a = args("demo", "/tmp/demo", "/etc/skel");
    build_tree(
        &a,
        &vec![dir("src")],
        &vec![dir("src/main.rs")],
        &vec![(dir("src/main.rs"), dir("fn main() {}"))],
    )
}

#[test]
fn existing_root_gives_no_action() {
    let tree = small_tree();
    let build = BuildCommand { script: dir("echo"), dir: dir("/tmp/demo"), show_output: false };
    let err = make_tree(&tree, "/tmp/demo", true, true, Some(build), true).unwrap_err();
    assert_eq!(err.kind(), SkelErrType::ProjectExists);
    assert_eq!(err.into_string(), "project destination exists -- /tmp/demo");
}

#[test]
fn repeated_directories_are_created_once() {
    let a = args("demo", "/tmp/demo", "/etc/skel");
    let tree = build_tree(
        &a,
        &vec![dir("a/b"), dir("a/b"), dir("a")],
        &vec![dir("a/b/c")],
        &vec![],
    );
    assert_eq!(tree.dirs, vec![dir("/tmp/demo/a/b"), dir("/tmp/demo/a")]);
    let plan = make_tree(&tree, "/tmp/demo", false, true, None, false).unwrap();
    let texts: Vec<String> = plan.iter().map(action_text).collect();
    assert_eq!(
        texts,
        vec!["dir /tmp/demo", "dir /tmp/demo/a/b", "dir /tmp/demo/a", "file /tmp/demo/a/b/c"]
    );
}

#[test]
fn end_to_end_scenario() {
    let registry = MainConfig { skeletons: vec![entry("rs", &["r"])] };
    assert!(check_config(&registry).is_ok());
    assert_eq!(skeleton_path_from_config("r", &registry).unwrap(), "rs.toml");
    let run = RunConfig {
        skel_conf: SkelConfig {
            dirs: Some(vec![dir("src")]),
            files: Some(vec![dir("src/main.rs")]),
            templates: Some(vec![SkelTemplate {
                path: dir("src/main.rs"),
                template: Some(dir("fn main() { println!(\"{{name}}\"); }")),
                include_file: None,
            }]),
            build: None,
            build_first: None,
        },
        root_path: dir("/tmp/demo"),
        name: dir("demo"),
        config_dir: dir("/etc/skel"),
    };
    let tree = resolve_tree(&run, &vec![None]).unwrap();
    assert_eq!(tree.dirs, vec![dir("/tmp/demo/src")]);
    assert_eq!(tree.files, vec![dir("/tmp/demo/src/main.rs")]);
    let plan = skel::plan::make_project_tree(&run, &vec![None], false).unwrap();
    let texts: Vec<String> = plan.iter().map(action_text).collect();
    assert_eq!(
        texts,
        vec![
            "dir /tmp/demo",
            "dir /tmp/demo/src",
            "file /tmp/demo/src/main.rs",
            "write /tmp/demo/src/main.rs <fn main() { println!(\"demo\"); }>",
        ]
    );
}

fn run_with(templates: Vec<SkelTemplate>, build: Option<&str>, build_first: Option<bool>) -> RunConfig {
    RunConfig {
        skel_conf: SkelConfig {
            dirs: None,
            files: None,
            templates: Some(templates),
            build: build.map(|b| b.to_string()),
            build_first,
        },
        root_path: dir("/tmp/demo"),
        name: dir("demo"),
        config_dir: dir("/etc/skel"),
    }
}

#[test]
fn entry_without_content_names_its_destination() {
    let run = run_with(
        vec![
            SkelTemplate { path: dir("ok.txt"), template: Some(dir("x")), include_file: None },
            SkelTemplate { path: dir("{{name}}/empty.txt"), template: None, include_file: None },
        ],
        None,
        None,
    );
    let err = resolve_tree(&run, &vec![None, None]).unwrap_err();
    assert_eq!(err.kind(), SkelErrType::ResolveError);
    assert_eq!(
        err.into_string(),
        "no template string or include path for template /tmp/demo/demo/empty.txt"
    );
    let err = skel::plan::make_project_tree(&run, &vec![None, None], false).unwrap_err();
    assert_eq!(err.kind(), SkelErrType::ResolveError);
}

#[test]
fn included_text_is_substituted() {
    let run = run_with(
        vec![SkelTemplate {
            path: dir("README"),
            template: None,
            include_file: Some(dir("files/{{name}}.md")),
        }],
        None,
        None,
    );
    assert_eq!(source_paths(&run), vec![Some(dir("/etc/skel/files/demo.md"))]);
    let tree = resolve_tree(&run, &vec![Some(dir("# {{name}} in {{root}}"))]).unwrap();
    assert_eq!(tree.templates, vec![(dir("/tmp/demo/README"), dir("# demo in /tmp/demo"))]);
    assert_eq!(tree.dirs, vec![dir("/tmp/demo")]);
}

#[test]
fn missing_included_file_is_an_error() {
    let run = run_with(
        vec![SkelTemplate { path: dir("README"), template: None, include_file: Some(dir("a.md")) }],
        None,
        None,
    );
    let err = resolve_tree(&run, &vec![None]).unwrap_err();
    assert_eq!(err.kind(), SkelErrType::ResolveError);
    assert_eq!(err.into_string(), "include file not found /etc/skel/a.md");
}

#[test]
fn build_runs_before_or_after() {
    let t = || vec![SkelTemplate { path: dir("a"), template: Some(dir("b")), include_file: None }];
    let first = skel::plan::make_project_tree(&run_with(t(), Some("make {{name}}"), Some(true)), &vec![None], false)
        .unwrap();
    let texts: Vec<String> = first.iter().map(action_text).collect();
    assert_eq!(
        texts,
        vec![
            "build in /tmp/demo <#!/usr/bin/env bash\n\nmake demo>",
            "dir /tmp/demo",
            "dir /tmp/demo",
            "write /tmp/demo/a <b>",
        ]
    );
    let last = skel::plan::make_project_tree(&run_with(t(), Some("make"), None), &vec![None], false).unwrap();
    assert_eq!(action_text(last.last().unwrap()), "build in /tmp/demo <#!/usr/bin/env bash\n\nmake>");
}

#[test]
fn absolute_paths_are_kept() {
    assert_eq!(anchor_path("/tmp/demo", "/etc/x"), "/etc/x");
    assert_eq!(anchor_path("/tmp/demo", "x"), "/tmp/demo/x");
    assert_eq!(anchor_path("/tmp/demo/", "x"), "/tmp/demo/x");
    assert_eq!(anchor_path("", "x"), "x");
}

#[test]
fn parent_directories() {
    assert_eq!(parent_dir("/tmp/demo/src/main.rs"), "/tmp/demo/src");
    assert_eq!(parent_dir("/main.rs"), "/");
    assert_eq!(parent_dir("main.rs"), "");
}

#[test]
fn templates_can_be_left_out() {
    let tree = small_tree();
    let texts: Vec<String> = tree_actions(&tree, "/tmp/demo", false).iter().map(action_text).collect();
    assert_eq!(texts, vec!["dir /tmp/demo", "dir /tmp/demo/src", "file /tmp/demo/src/main.rs"]);
}

fn fake_project() -> Project {
    Project {
        name: dir("test_project"),
        dirs: Some(vec![dir("src")]),
        files: Some(vec![dir("src/main.rs")]),
        build: Some(dir("echo {{name}}")),
        templates: Some(vec![SkelTemplate {
            path: dir("src/main.rs"),
            template: Some(dir("// {{name}}")),
            include_file: None,
        }]),
        project_root_path: dir("/tmp/test_root/test_project"),
        project_root_string: dir("/tmp/test_root/test_project"),
        config_dir_string: dir("/tmp/fake_config"),
        dont_make_template: false,
        dont_run_build: false,
        build_first: false,
        show_build_output: false,
    }
}

#[test]
fn lib_test_make_project_root_exits() {
    let proj = fake_project();
    match make_project(&proj, true) {
        Err(err) => {
            let err_string = format!("project destination exists -- {}", proj.root_string());
            assert_eq!(err.into_string(), err_string, "did not find project path");
        }
        Ok(_) => panic!("did not fail"),
    }
}

#[test]
fn make_project_plans_tree_then_build() {
    let proj = fake_project();
    let plan = make_project(&proj, false).unwrap();
    let texts: Vec<String> = plan.iter().map(action_text).collect();
    assert_eq!(
        texts,
        vec![
            "dir /tmp/test_root/test_project",
            "dir /tmp/test_root/test_project/src",
            "file /tmp/test_root/test_project/src/main.rs",
            "write /tmp/test_root/test_project/src/main.rs <// test_project>",
            "build in /tmp/test_root/test_project <#!/usr/bin/env bash\n\necho test_project>",
        ]
    );
    let mut quiet = fake_project();
    quiet.dont_run_build = true;
    quiet.dont_make_template = true;
    let texts: Vec<String> = make_project_tree(&quiet).unwrap().iter().map(action_text).collect();
    assert_eq!(texts.len(), 3);
}

#[test]
fn make_project_refuses_entry_without_text() {
    let mut proj = fake_project();
    proj.templates.as_mut().unwrap()[0].template = None;
    let err = make_project(&proj, false).unwrap_err();
    assert_eq!(err.kind(), SkelErrType::ResolveError);
    assert_eq!(
        err.into_string(),
        "entry dose not have a template -- name test_project -- path src/main.rs"
    );
    assert!(make_project_tree(&proj).is_err());
}

#[test]
fn resolve_templates_names_entry_without_text() {
    let mut config = SkelConfig {
        dirs: None,
        files: None,
        templates: Some(vec![
            SkelTemplate { path: dir("a"), template: Some(dir("x")), include_file: None },
            SkelTemplate { path: dir("{{name}}/b"), template: None, include_file: None },
        ]),
        build: None,
        build_first: None,
    };
    let err = config
        .resolve_project_templates("/tmp/root", "demo", "/etc/skel", &vec![None, None])
        .unwrap_err();
    assert_eq!(err.kind(), SkelErrType::ResolveError);
    assert_eq!(err.into_string(), "entry dose not have a template -- name demo -- path {{name}}/b");
    let err = config
        .resolve_skeleton_templates("/tmp/root", "demo", "/etc/skel", &vec![None, None])
        .unwrap_err();
    assert_eq!(err.into_string(), "entry dose not have a template -- name demo -- path {{name}}/b");
    assert_eq!(config.templates.as_ref().unwrap()[0].template, Some(dir("x")));
}

#[test]
fn dry_run_lines_are_sorted() {
    let tree = build_tree(
        &args("demo", "/r", "/c"),
        &vec![dir("b"), dir("a"), dir("B")],
        &vec![dir("z.txt"), dir("a/y.txt")],
        &vec![(dir("t2"), dir("two")), (dir("t1"), dir("one"))],
    );
    let lines = dry_run_lines(&tree, "/r", false, None, false);
    assert_eq!(
        lines,
        vec![
            "would make in to -> /r",
            "  dir  -> /r",
            "  dir  -> /r/B",
            "  dir  -> /r/a",
            "  dir  -> /r/b",
            "  file -> /r/a/y.txt",
            "  file -> /r/z.txt",
            "  ------",
            "  template -> /r/t1",
            "    one",
            "  ------",
            "  ------",
            "  template -> /r/t2",
            "    two",
            "  ------",
        ]
    );
}

#[test]
fn dry_run_lines_list_the_tree() {
    let tree = build_tree(
        &args("demo", "/tmp/demo", "/etc/skel"),
        &vec![dir("src")],
        &vec![dir("src/main.rs")],
        &vec![(dir("README"), dir("# {{name}}\r\n\nend\n"))],
    );
    let lines = dry_run_lines(&tree, "/tmp/demo", true, Some("make"), true);
    assert_eq!(
        lines,
        vec![
            "\x1b[33mWarning /tmp/demo already exists\x1b[0m\n",
            "would make in to -> /tmp/demo",
            "  dir  -> /tmp/demo",
            "  dir  -> /tmp/demo/src",
            "  file -> /tmp/demo/src/main.rs",
            "  ------",
            "  template -> /tmp/demo/README",
            "    # demo",
            "    ",
            "    end",
            "  ------",
            "  build first = true",
            "  ------\n    make\n  ------",
        ]
    );
    let text = "a\r\nb\n\nc\rd";
    let tree = build_tree(&args("x", "/r", "/c"), &vec![], &vec![], &vec![(dir("t"), dir(text))]);
    let lines = dry_run_lines(&tree, "/r", false, None, false);
    let expected: Vec<String> = text.lines().map(|l| format!("    {}", l)).collect();
    assert_eq!(lines[4..lines.len() - 1].to_vec(), expected);
}

#[test]
fn resolve_default_refuses_empty_definition() {
    let args = skel::cli::SkelArgs { name: dir("demo"), ..Default::default() };
    let empty = SkelConfig { dirs: None, files: Some(vec![]), templates: None, build: None, build_first: None };
    let err = resolve_default(args, empty, "/etc/skel", "/home/u", &vec![]).unwrap_err();
    assert_eq!(err.kind(), SkelErrType::ConfigError);
    assert_eq!(err.into_string(), "project dose not have anything to do");
}

#[test]
fn resolve_default_builds_project() {
    let args = skel::cli::SkelArgs {
        name: dir("demo"),
        different_root: Some(dir("/work")),
        build_first: true,
        ..Default::default()
    };
    let conf = SkelConfig {
        dirs: Some(vec![dir("src")]),
        files: None,
        templates: Some(vec![SkelTemplate { path: dir("a"), template: None, include_file: Some(dir("a.txt")) }]),
        build: None,
        build_first: Some(false),
    };
    let p = resolve_default(args, conf, "/etc/skel", "/home/u", &vec![Some(dir("text"))]).unwrap();
    assert_eq!(p.project_root_path, "/work/demo");
    assert_eq!(p.templates.unwrap()[0].template, Some(dir("text")));
    assert!(p.build_first);
}

#[test]
fn error_constructors() {
    let e = SkelError::from_io_err(dir("disk full"));
    assert_eq!(e.kind(), SkelErrType::IoError);
    assert_eq!(e.into_string(), "disk full");
    let e = SkelError::from_box_err(dir("boom"));
    assert_eq!(e.kind(), SkelErrType::BoxError);
    let e = NewInnerError::io_error("gone");
    assert_eq!(e.kind(), NewInnerErrType::IoError);
    assert_eq!(e.err_str, "gone");
    let e = NewInnerError::new(NewInnerErrType::ProjectExists, dir("there"));
    assert_eq!(e.kind(), NewInnerErrType::ProjectExists);
    assert_eq!(NewInnerError::from_io_err(dir("x")).kind(), NewInnerErrType::IoError);
}

#[test]
fn empty_body_is_written_and_collision_writes_last() {
    let a = args("demo", "/tmp/demo", "/etc/skel");
    let tree = build_tree(
        &a,
        &vec![],
        &vec![dir("notes.txt")],
        &vec![(dir("notes.txt"), dir("")), (dir("notes.txt"), dir(""))],
    );
    assert_eq!(tree.templates, vec![(dir("/tmp/demo/notes.txt"), dir(""))]);
    let texts: Vec<String> = make_tree(&tree, "/tmp/demo", false, true, None, false)
        .unwrap()
        .iter()
        .map(action_text)
        .collect();
    assert_eq!(
        texts,
        vec!["dir /tmp/demo", "dir /tmp/demo", "file /tmp/demo/notes.txt", "write /tmp/demo/notes.txt <>"]
    );
}
