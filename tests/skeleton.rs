use skel::process_tools::make_bash_string;
use skel::skeleton::{Skeleton, SkeletonConfig, SkeletonTemplate};

fn fake_templates() -> Vec<SkeletonTemplate> {
    vec![
        SkeletonTemplate {
            path: String::from("src/main.rs"),
            template: Some(String::from("fn main() {\n    println!(\"hello {{name}}\");\n}\n")),
            include_file: None,
        },
        SkeletonTemplate {
            path: String::from("tests/test_main.rs"),
            template: Some(String::from("// no tests yet for {{name}}")),
            include_file: None,
        },
    ]
}

fn make_fake_skeleton_config() -> SkeletonConfig {
    SkeletonConfig {
        dirs: Some(vec![
            String::from("src"),
            String::from("tests"),
            String::from("tests/more_tests"),
        ]),
        files: Some(vec![String::from("src/main.rs"), String::from("tests/test_main.rs")]),
        build: Some(String::from("touch test_build\nif [[ -d {{name}} ]]; then\n    echo \"running in $PWD\"\nfi")),
        build_first: None,
        templates: Some(fake_templates()),
    }
}

fn make_fake_skeleton(root: Option<&str>) -> Skeleton {
    let base = root.unwrap_or("/tmp/test_root");
    let root_string = format!("{}/test_project", base);
    let config = make_fake_skeleton_config();
    Skeleton {
        name: String::from("test_project"),
        dirs: config.dirs,
        files: config.files,
        build: config.build,
        templates: config.templates,
        project_root_string: root_string,
        skel_config_path: String::from("/tmp/fake_config"),
        dont_make_template: false,
        dont_run_build: false,
        build_first: false,
        show_build_output: false,
    }
}

#[test]
fn test_new_skeleton() {
    let mut config = make_fake_skeleton_config();
    let config_dir = String::from("/tmp/fake_config/config.toml");
    let root = String::from("/tmp/test_path");
    let name = String::from("test_project");
    let arg_build_first = false;

    config
        .resolve_skeleton_templates(&root, &name, &config_dir, &vec![None, None])
        .expect("cant resolve templates");

    let build_first = arg_build_first || (config.build_first.is_some() && config.build_first.unwrap());

    let skeleton = Skeleton {
        build_first,
        dirs: config.dirs,
        files: config.files,
        build: config.build,
        templates: config.templates,
        skel_config_path: config_dir,
        name: name.clone(),
        project_root_string: root,
        dont_make_template: false,
        dont_run_build: false,
        show_build_output: false,
    };

    assert_eq!(skeleton.name, "test_project");

    let test_dirs = ["src", "tests", "tests/more_tests"];
    for d in skeleton.dirs.unwrap() {
        if !test_dirs.contains(&d.as_str()) {
            panic!("{} -- bad test dir found", d);
        }
    }

    let test_files = ["src/main.rs", "tests/test_main.rs", "src/test_include.txt"];
    for f in skeleton.files.unwrap() {
        if !test_files.contains(&f.as_str()) {
            panic!("{} -- bad test files found", f);
        }
    }
}

#[test]
fn test_dirs_skeleton_buf_iter() {
    let proj = make_fake_skeleton(None);
    let mut dir_iter = proj.dir_iter().unwrap();

    assert_eq!(
        dir_iter.next(),
        Some(String::from("/tmp/test_root/test_project/src")),
        "src not in project struct"
    );
    assert_eq!(
        dir_iter.next(),
        Some(String::from("/tmp/test_root/test_project/tests")),
        "tests not in project struct"
    );
    assert_eq!(
        dir_iter.next(),
        Some(String::from("/tmp/test_root/test_project/tests/more_tests")),
        "tests not in project struct"
    );
    assert_eq!(dir_iter.next(), None, "too many in dirs vector");
}

#[test]
fn test_files_skeleton_buf_iter() {
    let proj = make_fake_skeleton(None);
    let mut file_iter = proj.file_iter().unwrap();

    assert_eq!(
        file_iter.next(),
        Some(String::from("/tmp/test_root/test_project/src/main.rs")),
        "main not in project struct"
    );
    assert_eq!(
        file_iter.next(),
        Some(String::from("/tmp/test_root/test_project/tests/test_main.rs")),
        "test_main.rs not in project struct"
    );
}

fn check_two_templates(proj: &Skeleton) {
    let mut template_iter = proj.template_iter().expect("cant get template iter");

    let first_test = (
        String::from("/tmp/test_root/test_project/src/main.rs"),
        "fn main() {\n    println!(\"hello test_project\");\n}\n".to_string(),
    );
    let first = template_iter.next().expect("failed to call next on template_iter");
    assert_eq!(first.0, first_test.0, "first path is not the same");
    assert_eq!(first.1, first_test.1, "first string is not the same");

    let second_test = (
        String::from("/tmp/test_root/test_project/tests/test_main.rs"),
        String::from("// no tests yet for test_project"),
    );
    let second = template_iter.next().expect("failed to call next on template_iter");
    assert_eq!(second.0, second_test.0, "second path is not the same");
    assert_eq!(second.1, second_test.1, "second string is not the same");
}

#[test]
fn skeleton_test_config_template_iter() {
    let proj = make_fake_skeleton(None);
    check_two_templates(&proj);
}

#[test]
fn skeleton_test_config_template_iter_no_files() {
    let mut proj = make_fake_skeleton(None);
    proj.files.take();
    assert!(proj.files.is_none(), "did not empty files");
    check_two_templates(&proj);
}

#[test]
fn process_tools_test_make_bash_string() {
    let proj = make_fake_skeleton(Some("/tmp/test_root"));
    let new_string = make_bash_string(&proj);
    let hand_made = String::from(
        r#"#!/usr/bin/env bash

touch test_build
if [[ -d test_project ]]; then
    echo "running in $PWD"
fi"#,
    );
    assert_eq!(new_string, hand_made, "didn't make string correctly");
}
