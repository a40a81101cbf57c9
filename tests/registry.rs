use skel::config::{
    check_config, get_skeleton_config_path, skeleton_path_from_config, MainConfig, Skeleton,
};
use skel::defaults::{find_project_file, project_path_with_templateing, UserConfig};
use skel::parse_args::SkelArgs;
use skel::skel_error::SkelErrType;

const TEST_PROJECT_KEY: &str = "test_project";
const TEST_PROJECT_PATH: &str = "{{config-dir}}/projects/test_project.toml";
const TEST_PROJECT_ALIASES: &[&str] = &["t", "T", "test_project"];
const TEMP_PATH_STRING: &str = "/tmp/skel_registry_test";

fn test_args() -> SkelArgs {
    SkelArgs {
        skeleton: Some(String::from("t")),
        name: Some(String::from("test_project")),
        dry_run: true,
        ..Default::default()
    }
}

fn aliases() -> Vec<String> {
    TEST_PROJECT_ALIASES.iter().map(|s| s.to_string()).collect()
}

fn fake_main_config_duplicate() -> MainConfig {
    MainConfig {
        skeletons: vec![
            (
                TEST_PROJECT_KEY.to_string(),
                Skeleton { path: TEST_PROJECT_PATH.into(), aliases: aliases() },
            ),
            (
                "another_test_key".to_string(),
                Skeleton { path: TEST_PROJECT_PATH.into(), aliases: aliases() },
            ),
        ],
    }
}

fn fake_main_config() -> MainConfig {
    MainConfig {
        skeletons: vec![
            (
                TEST_PROJECT_KEY.to_string(),
                Skeleton {
                    path: TEST_PROJECT_PATH.replace("{{config-dir}}", TEMP_PATH_STRING),
                    aliases: aliases(),
                },
            ),
            (
                "test_key_2".to_string(),
                Skeleton {
                    path: "test_project_2.toml".into(),
                    aliases: vec!["a".into(), "A".into()],
                },
            ),
        ],
    }
}

fn make_fake_user_config() -> UserConfig {
    UserConfig {
        projects: vec![
            (
                String::from("basic_python"),
                String::from("{{config-dir}}/projects/basic_python.toml"),
            ),
            (String::from("basic_cpp"), String::from("{{config-dir}}/projects/basic_cpp.toml")),
            (
                String::from("basic_javascript"),
                String::from("{{config-dir}}/projects/basic_javascript.toml"),
            ),
        ],
        alias: vec![
            (
                String::from("basic_cpp"),
                vec![String::from("cpp"), String::from("cp"), String::from("c++")],
            ),
            (String::from("basic_python"), vec![String::from("py"), String::from("p")]),
            (String::from("basic_javascript"), vec![String::from("js"), String::from("j")]),
        ],
    }
}

#[test]
fn test_find_project_file() {
    let config = make_fake_user_config();

    let project = find_project_file(&config, "cp".to_string());
    assert!(project.is_ok(), "failed to find project to make");
    assert_eq!(
        project.unwrap(),
        String::from("{{config-dir}}/projects/basic_cpp.toml"),
        "failed to find project to make"
    );

    let project = find_project_file(&config, "p".to_string());
    assert!(project.is_ok(), "failed to find project to make");
    assert_eq!(
        project.unwrap(),
        String::from("{{config-dir}}/projects/basic_python.toml"),
        "failed to find project to make"
    );

    let project = find_project_file(&config, "basic_javascript".to_string());
    assert!(project.is_ok(), "failed to find project to make");
    assert_eq!(
        project.unwrap(),
        String::from("{{config-dir}}/projects/basic_javascript.toml"),
        "failed to find project to make"
    );
}

#[test]
fn find_project_file_unknown_type() {
    let config = make_fake_user_config();
    let err = find_project_file(&config, "rust".to_string()).unwrap_err();
    assert_eq!(err.kind(), SkelErrType::NotFound);
    assert_eq!(err.into_string(), "given project type not in user config -- rust");
}

#[test]
fn find_project_file_alias_without_project() {
    let mut config = make_fake_user_config();
    config.alias.push((String::from("basic_go"), vec![String::from("go")]));
    let err = find_project_file(&config, "go".to_string()).unwrap_err();
    assert_eq!(err.kind(), SkelErrType::NotFound);
    assert_eq!(err.into_string(), "no project for that alias -- go");
}

#[test]
fn test_project_path_with_templateing() {
    let fake_config_dir = String::from("/tmp/skel");
    let conf = make_fake_user_config();
    let project_path = match project_path_with_templateing("cp".to_string(), &conf, &fake_config_dir) {
        Err(err) => panic!("{}", err.into_string()),
        Ok(val) => val,
    };
    assert_eq!(
        project_path,
        String::from("/tmp/skel/projects/basic_cpp.toml"),
        "failed to template path"
    );
}

#[test]
fn test_check_config() {
    let main_config = fake_main_config();
    assert!(check_config(&main_config).is_ok(), "did not find duplicate aliases");
}

#[test]
fn test_check_config_duplicates() {
    let main_config = fake_main_config_duplicate();
    assert!(check_config(&main_config).is_err(), "did not find duplicate aliases");
}

#[test]
fn check_config_reports_every_duplicate() {
    let err = check_config(&fake_main_config_duplicate()).unwrap_err();
    assert_eq!(err.kind(), SkelErrType::DuplicateAlias);
    assert_eq!(
        err.into_string(),
        "duplicate keys or aliases found\n\
         keys [\x1b[31mtest_project\x1b[0m, \x1b[31manother_test_key\x1b[0m]\n    \
         alias: [\x1b[31mt, T, test_project\x1b[0m]"
    );
}

#[test]
fn check_config_same_key_twice() {
    let config = MainConfig {
        skeletons: vec![
            ("rs".to_string(), Skeleton { path: "a.toml".into(), aliases: vec!["r".into()] }),
            ("py".to_string(), Skeleton { path: "b.toml".into(), aliases: vec!["p".into()] }),
            ("rs".to_string(), Skeleton { path: "c.toml".into(), aliases: vec!["p".into()] }),
        ],
    };
    let err = check_config(&config).unwrap_err();
    assert_eq!(
        err.into_string(),
        "duplicate keys or aliases found\n\
         keys [\x1b[31mrs\x1b[0m, \x1b[31mrs\x1b[0m]\n    alias: [\x1b[31m\x1b[0m]\n\
         keys [\x1b[31mpy\x1b[0m, \x1b[31mrs\x1b[0m]\n    alias: [\x1b[31mp\x1b[0m]"
    );
}

#[test]
fn test_skeleton_path_from_config_project_exists() {
    let main_config = fake_main_config();
    let hand_made_project_path = TEST_PROJECT_PATH.replace("{{config-dir}}", TEMP_PATH_STRING);
    let skel_path =
        skeleton_path_from_config(TEST_PROJECT_KEY, &main_config).expect("did not find config");
    assert_eq!(skel_path, hand_made_project_path, "did not get the correct skeleton path");
}

#[test]
fn test_skeleton_path_from_config_alias_exists() {
    let main_config = fake_main_config();
    let target: String = "t".into();
    let hand_made_project_path = TEST_PROJECT_PATH.replace("{{config-dir}}", TEMP_PATH_STRING);
    let skel_path = skeleton_path_from_config(&target, &main_config).expect("did not find config");
    assert_eq!(skel_path, hand_made_project_path, "did not get the correct skeleton path");
}

#[test]
fn test_skeleton_path_from_config_does_not_exist() {
    let main_config = fake_main_config();
    let target: String = "does_not_exist".into();
    let res = skeleton_path_from_config(&target, &main_config);
    assert!(res.is_err(), "project  some how exists");
    let err = res.unwrap_err();
    assert_eq!(err.kind(), SkelErrType::NotFound);
    assert_eq!(err.into_string(), "did not find matching skeleton or alias for does_not_exist");
}

#[test]
fn test_find_skeleton_config_path_from_aliases() {
    let args = test_args();
    let main_config = MainConfig {
        skeletons: vec![(
            TEST_PROJECT_KEY.to_string(),
            Skeleton { path: TEST_PROJECT_PATH.into(), aliases: aliases() },
        )],
    };
    let hand_made_skel_path = format!("{}/projects/test_project.toml", TEMP_PATH_STRING);
    match get_skeleton_config_path(&args, &main_config, TEMP_PATH_STRING) {
        Ok(config_dir) => assert_eq!(config_dir, hand_made_skel_path, "did not make skeleton path"),
        Err(err) => panic!("did not find skeleton path {}", err.into_string()),
    }
}

#[test]
fn test_find_skeleton_config_path_from_args() {
    let mut args = test_args();
    args.skeleton = None;
    let skel_file = format!("{}/test_skeleton_2.toml", TEMP_PATH_STRING);
    args.skeleton_file = Some(skel_file.clone());
    let main_config = fake_main_config();
    match get_skeleton_config_path(&args, &main_config, TEMP_PATH_STRING) {
        Ok(config_dir) => assert_eq!(config_dir, skel_file, "did not make skeleton path"),
        Err(err) => panic!("did not find skeleton path {}", err.into_string()),
    }
}

#[test]
fn get_skeleton_config_path_without_skeleton() {
    let mut args = test_args();
    args.skeleton = None;
    let err = get_skeleton_config_path(&args, &fake_main_config(), TEMP_PATH_STRING).unwrap_err();
    assert_eq!(err.kind(), SkelErrType::BoxError);
    assert_eq!(err.into_string(), "did not get skeleton to make some how");
}
