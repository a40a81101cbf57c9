use skel::args::{parse_args as parse_alias_args, project_info_check};
use skel::parse_args::{parse_args, SkelArgs};
use skel::skel_error::SkelErrType;

fn raw(skeleton: Option<&str>, name: Option<&str>, file: Option<&str>) -> SkelArgs {
    SkelArgs {
        skeleton: skeleton.map(String::from),
        name: name.map(String::from),
        skeleton_file: file.map(String::from),
        ..Default::default()
    }
}

fn message(r: Result<SkelArgs, skel::skel_error::SkelError>) -> String {
    let e = r.unwrap_err();
    assert_eq!(e.kind(), SkelErrType::BoxError);
    e.into_string()
}

#[test]
fn skeleton_and_name_are_kept() {
    let a = parse_args(raw(Some("rs"), Some("demo"), None)).unwrap();
    assert_eq!(a.skeleton.as_deref(), Some("rs"));
    assert_eq!(a.name.as_deref(), Some("demo"));
}

#[test]
fn lone_argument_with_file_is_the_name() {
    let a = parse_args(raw(Some("demo"), None, Some("s.toml"))).unwrap();
    assert_eq!(a.skeleton, None);
    assert_eq!(a.name.as_deref(), Some("demo"));
    assert_eq!(a.skeleton_file.as_deref(), Some("s.toml"));
}

#[test]
fn argument_errors() {
    assert_eq!(
        message(parse_args(raw(None, None, None))),
        "Error: did not get a skeleton or skeleton-file to make"
    );
    assert_eq!(
        message(parse_args(raw(Some("rs"), Some("demo"), Some("s.toml")))),
        "Error: both a skeleton and a skeleton-file given"
    );
    assert_eq!(message(parse_args(raw(Some("rs"), None, None))), "Error: did not get enough args");
    assert_eq!(
        message(parse_args(raw(None, None, Some("s.toml")))),
        "Error: did not get a project name to make"
    );
}

#[test]
fn alias_arguments() {
    assert!(project_info_check(Some("rs"), None, Some("demo")).is_ok());
    assert_eq!(
        project_info_check(Some("rs"), Some("f"), Some("demo")).unwrap_err().into_string(),
        "can not use --project-file with an ALIAS"
    );
    assert_eq!(project_info_check(None, None, None).unwrap_err().into_string(), "to few args given");
    assert_eq!(project_info_check(Some("rs"), None, None).unwrap_err().into_string(), "to few args given");
    let a = parse_alias_args(Some("rs"), None, None, None, None, false, true, false, false);
    assert!(a.is_err());
    let a = parse_alias_args(Some("demo"), Some("p.toml"), None, Some("/w"), None, true, false, true, false).unwrap();
    assert_eq!(a.name, "demo");
    assert_eq!(a.alias_str, "");
    assert_eq!(a.cli_project_file.as_deref(), Some("p.toml"));
    assert!(a.dont_make_templates && a.build_first && !a.dont_run_build);
}
