use skel::cli::SkelArgs;
use skel::project::{Project, ProjectConfig, ProjectTemplate};
use skel::system_tools::make_bash_string;

fn fake_templates() -> Vec<ProjectTemplate> {
    vec![
        ProjectTemplate {
            path: String::from("src/main.rs"),
            template: Some(String::from("fn main() {\n    println!(\"hello {{name}}\");\n}\n")),
            include_file: None,
        },
        ProjectTemplate {
            path: String::from("tests/test_main.rs"),
            template: Some(String::from("// no tests yet for {{name}}")),
            include_file: None,
        },
    ]
}

fn make_fake_project_config() -> ProjectConfig {
    ProjectConfig {
        dirs: Some(vec![
            String::from("src"),
            String::from("tests"),
            String::from("tests/more_tests"),
        ]),
        files: Some(vec![String::from("src/main.rs"), String::from("tests/test_main.rs")]),
        build: Some(String::from("if [[ -d {{name}} ]]; then\n    echo \"running in $PWD\"\nfi")),
        build_first: None,
        templates: Some(fake_templates()),
    }
}

fn make_fake_project(root: Option<&str>) -> Project {
    let base = root.unwrap_or("/tmp/test_root");
    let root_string = format!("{}/test_project", base);
    let config = make_fake_project_config();
    Project {
        name: String::from("test_project"),
        dirs: config.dirs,
        files: config.files,
        build: config.build,
        templates: config.templates,
        project_root_path: root_string.clone(),
        project_root_string: root_string,
        config_dir_string: String::from("/tmp/fake_config"),
        dont_make_template: false,
        dont_run_build: false,
        build_first: false,
        show_build_output: false,
    }
}

#[test]
fn test_new_project() {
    let mut config = make_fake_project_config();
    let config_dir = String::from("/tmp/fake_config/config.toml");
    let root = String::from("/tmp/test_path");
    let name = String::from("test_project");
    let args = SkelArgs {
        name: name.clone(),
        type_str: Some(String::from("fake_type")),
        ..Default::default()
    };

    config
        .resolve_project_templates(&root, &name, &config_dir, &vec![None, None])
        .expect("cant resolve templates");

    let build_first = args.build_first || (config.build_first.is_some() && config.build_first.unwrap());

    let project = Project {
        build_first,
        dirs: config.dirs,
        files: config.files,
        build: config.build,
        templates: config.templates,
        config_dir_string: config_dir,
        name: args.name,
        project_root_path: root.clone(),
        project_root_string: root,
        dont_make_template: args.dont_make_templates,
        dont_run_build: args.dont_run_build,
        show_build_output: args.show_build_output,
    };

    assert_eq!(project.name, "test_project");

    let test_dirs = ["src", "tests", "tests/more_tests"];
    for d in project.dirs.unwrap() {
        if !test_dirs.contains(&d.as_str()) {
            panic!("{} -- bad test dir found", d);
        }
    }

    let test_files = ["src/main.rs", "tests/test_main.rs", "src/test_include.txt"];
    for f in project.files.unwrap() {
        if !test_files.contains(&f.as_str()) {
            panic!("{} -- bad test files found", f);
        }
    }
}

#[test]
fn test_dirs_project_buf_iter() {
    let proj = make_fake_project(None);
    let mut dir_iter = proj.dir_iter().unwrap();

    assert_eq!(
        dir_iter.next(),
        Some(String::from("/tmp/test_root/test_project/src")),
        "src not in project struct"
    );
    assert_eq!(
        dir_iter.next(),
        Some(String::from("/tmp/test_root/test_project/tests")),
        "tests not in project struct"
    );
    assert_eq!(
        dir_iter.next(),
        Some(String::from("/tmp/test_root/test_project/tests/more_tests")),
        "tests not in project struct"
    );
    assert_eq!(dir_iter.next(), None, "too many in dirs vector");
}

#[test]
fn test_files_project_buf_iter() {
    let proj = make_fake_project(None);
    let mut file_iter = proj.file_iter().unwrap();

    assert_eq!(
        file_iter.next(),
        Some(String::from("/tmp/test_root/test_project/src/main.rs")),
        "main not in project struct"
    );
    assert_eq!(
        file_iter.next(),
        Some(String::from("/tmp/test_root/test_project/tests/test_main.rs")),
        "test_main.rs not in project struct"
    );
}

fn check_two_templates(proj: &Project) {
    let mut template_iter = proj.template_iter().expect("cant get template iter");

    let first_test = (
        String::from("/tmp/test_root/test_project/src/main.rs"),
        "fn main() {\n    println!(\"hello test_project\");\n}\n".to_string(),
    );
    let first = template_iter.next().expect("failed to call next on template_iter");
    assert_eq!(first.0, first_test.0, "first path is not the same");
    assert_eq!(first.1, first_test.1, "first string is not the same");

    let second_test = (
        String::from("/tmp/test_root/test_project/tests/test_main.rs"),
        String::from("// no tests yet for test_project"),
    );
    let second = template_iter.next().expect("failed to call next on template_iter");
    assert_eq!(second.0, second_test.0, "second path is not the same");
    assert_eq!(second.1, second_test.1, "second string is not the same");
}

#[test]
fn project_test_config_template_iter() {
    let proj = make_fake_project(None);
    check_two_templates(&proj);
}

#[test]
fn project_test_config_template_iter_no_files() {
    let mut proj = make_fake_project(None);
    proj.files.take();
    assert!(proj.files.is_none(), "did not empty files");
    check_two_templates(&proj);
}

#[test]
fn system_tools_test_make_bash_string() {
    let proj = make_fake_project(Some("/tmp/test_root"));
    let new_string = make_bash_string(&proj);
    let hand_made = String::from(
        r#"#!/usr/bin/env bash

if [[ -d test_project ]]; then
    echo "running in $PWD"
fi"#,
    );
    assert_eq!(new_string, hand_made, "didn't make string correctly");
}
