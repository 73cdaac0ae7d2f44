use dotflow::config::{config_path, default_mise_dir, Config, Environment, Profile, Repository};
use dotflow::platform::Platform;
use dotflow::strmap::StrMap;

fn config() -> Config {
    Config {
        schema_version: 1,
        minimum_dotflow_version: None,
        repository: Repository {
            branch: "master".to_string(),
            origin: "git@github.com:a/b.git".to_string(),
            mise_dir: default_mise_dir(),
        },
        common: Environment::empty(),
        profiles: StrMap::new(),
    }
}

fn profile() -> Profile {
    Profile {
        platform: Platform::Linux,
        arch: None,
        add_environment: None,
        environments: vec![],
        after_sync: vec![],
        before_install: vec![],
    }
}

#[test]
fn valid_configuration_passes() {
    assert!(config().validate().is_ok());
    assert_eq!(default_mise_dir(), "mise");
    assert_eq!(config_path("/repo"), "/repo/.dotflow.toml");
}

#[test]
fn schema_version_is_checked_first() {
    let mut c = config();
    c.schema_version = 2;
    c.repository.branch = " ".to_string();
    assert_eq!(
        c.validate().unwrap_err().0,
        "unsupported schema version 2; this dotflow supports 1"
    );
}

#[test]
fn minimum_version_is_checked_with_semver() {
    let mut c = config();
    c.minimum_dotflow_version = Some("0.1.0".to_string());
    assert!(c.validate().is_ok());
    c.minimum_dotflow_version = Some(">=0.1".to_string());
    assert!(c.validate().is_ok());
    c.minimum_dotflow_version = Some("99.0.0".to_string());
    assert_eq!(
        c.validate().unwrap_err().0,
        "dotflow 0.1.0 does not satisfy minimum version 99.0.0"
    );
    c.minimum_dotflow_version = Some("not a version".to_string());
    assert!(c.validate().unwrap_err().0.starts_with("invalid minimum_dotflow_version: "));
}

#[test]
fn a_plain_version_is_a_minimum() {
    let mut c = config();
    for older in ["0.0.9", "0.0.1", "0.1.0"] {
        c.minimum_dotflow_version = Some(older.to_string());
        assert!(c.validate().is_ok(), "{older}");
    }
    c.minimum_dotflow_version = Some("0.2.0".to_string());
    assert_eq!(
        c.validate().unwrap_err().0,
        "dotflow 0.1.0 does not satisfy minimum version 0.2.0"
    );
    c.minimum_dotflow_version = Some("<0.1.0".to_string());
    assert_eq!(
        c.validate().unwrap_err().0,
        "dotflow 0.1.0 does not satisfy minimum version <0.1.0"
    );
    c.minimum_dotflow_version = Some("0.1".to_string());
    assert!(c.validate().is_ok());
}

#[test]
fn repository_and_profile_fields_are_required() {
    let mut c = config();
    c.repository.origin = "\t".to_string();
    assert_eq!(c.validate().unwrap_err().0, "repository branch and origin are required");
    let mut c = config();
    let mut p = profile();
    p.arch = Some(" ".to_string());
    c.profiles.insert("z".to_string(), p);
    let mut q = profile();
    q.add_environment = Some("".to_string());
    c.profiles.insert("y".to_string(), q);
    assert_eq!(c.validate().unwrap_err().0, "profile y has an empty add_environment");
}
