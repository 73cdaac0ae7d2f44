use dotflow::config::{default_mise_dir, Config, Environment, Profile, Repository};
use dotflow::mise::selected_environments;
use dotflow::platform::{platform_from, select_profile_for, Platform};
use dotflow::strmap::StrMap;

fn config_with(profiles: Vec<(&str, Profile)>, common_targets: Vec<&str>) -> Config {
    let mut map = StrMap::new();
    for (name, p) in profiles {
        map.insert(name.to_string(), p);
    }
    Config {
        schema_version: 1,
        minimum_dotflow_version: None,
        repository: Repository {
            branch: "master".to_string(),
            origin: "git@github.com:a/b.git".to_string(),
            mise_dir: default_mise_dir(),
        },
        common: Environment {
            mise_environment: None,
            targets: common_targets.into_iter().map(String::from).collect(),
        },
        profiles: map,
    }
}

fn profile(platform: Platform, arch: Option<&str>) -> Profile {
    Profile {
        platform,
        arch: arch.map(String::from),
        add_environment: None,
        environments: vec![],
        after_sync: vec![],
        before_install: vec![],
    }
}

fn env(name: &str) -> Environment {
    Environment { mise_environment: Some(name.to_string()), targets: vec![] }
}

#[test]
fn selection_platform_arch_override() {
    let c = config_with(
        vec![
            ("w", profile(Platform::Wsl, None)),
            ("l", profile(Platform::Linux, Some("x86_64"))),
            ("m", profile(Platform::Macos, None)),
            ("win", profile(Platform::Windows, None)),
        ],
        vec![],
    );
    assert_eq!(select_profile_for(&c, None, Platform::Wsl, "x86_64").unwrap(), "w");
    assert_eq!(select_profile_for(&c, None, Platform::Linux, "x86_64").unwrap(), "l");
    assert_eq!(select_profile_for(&c, None, Platform::Macos, "aarch64").unwrap(), "m");
    assert_eq!(select_profile_for(&c, None, Platform::Windows, "x86_64").unwrap(), "win");
    assert_eq!(select_profile_for(&c, Some("m"), Platform::Linux, "bad").unwrap(), "m");
    assert!(select_profile_for(&c, None, Platform::Linux, "aarch64").is_err());
}

#[test]
fn selection_rejects_multiple_and_none() {
    let c = config_with(
        vec![("a", profile(Platform::Linux, None)), ("b", profile(Platform::Linux, None))],
        vec![],
    );
    assert!(select_profile_for(&c, None, Platform::Linux, "x86_64")
        .unwrap_err()
        .0
        .contains("multiple"));
    assert!(select_profile_for(&c, None, Platform::Wsl, "x86_64")
        .unwrap_err()
        .0
        .contains("no profile"));
}

#[test]
fn selection_messages_are_exact() {
    let c = config_with(
        vec![("b", profile(Platform::Linux, None)), ("a", profile(Platform::Linux, None))],
        vec![],
    );
    assert_eq!(
        select_profile_for(&c, None, Platform::Linux, "x86_64").unwrap_err().0,
        "multiple profiles match platform linux and arch x86_64: a, b; use --profile"
    );
    assert_eq!(
        select_profile_for(&c, None, Platform::Macos, "arm64").unwrap_err().0,
        "no profile matches platform macos and arch arm64; use --profile"
    );
    assert_eq!(
        select_profile_for(&c, Some("zzz"), Platform::Linux, "x86_64").unwrap_err().0,
        "unknown profile: zzz"
    );
}

#[test]
fn selection_arch_ignores_ascii_case() {
    let c = config_with(vec![("l", profile(Platform::Linux, Some("X86_64")))], vec![]);
    assert_eq!(select_profile_for(&c, None, Platform::Linux, "x86_64").unwrap(), "l");
    assert!(select_profile_for(&c, None, Platform::Linux, "x86-64").is_err());
}

#[test]
fn environment_fallback_and_multiple() {
    let mut a = profile(Platform::Windows, None);
    a.environments = vec![env("windows"), env("pwsh")];
    let c = config_with(vec![("a", a)], vec!["base"]);
    assert_eq!(selected_environments(&c, "a").unwrap().len(), 2);
    let c = config_with(vec![("a", profile(Platform::Linux, None))], vec!["base"]);
    assert_eq!(selected_environments(&c, "a").unwrap().len(), 1);
    assert_eq!(selected_environments(&c, "a").unwrap()[0].targets, ["base"]);
}

#[test]
fn unknown_profile_has_no_environments() {
    let c = config_with(vec![("a", profile(Platform::Linux, None))], vec![]);
    assert_eq!(selected_environments(&c, "b").unwrap_err().0, "unknown profile: b");
}

#[test]
fn platform_detection_prefers_build_target_then_wsl_markers() {
    assert_eq!(platform_from(true, false, true, None), Platform::Windows);
    assert_eq!(platform_from(false, true, true, None), Platform::Macos);
    assert_eq!(platform_from(false, false, true, None), Platform::Wsl);
    assert_eq!(
        platform_from(false, false, false, Some("Linux version 5.15 (Microsoft@Microsoft.com)")),
        Platform::Wsl
    );
    assert_eq!(platform_from(false, false, false, Some("Linux version 6.1 (gcc)")), Platform::Linux);
    assert_eq!(platform_from(false, false, false, None), Platform::Linux);
}

#[test]
fn platform_names_are_lowercase_words() {
    assert_eq!(Platform::Wsl.name(), "wsl");
    assert_eq!(Platform::Linux.name(), "linux");
    assert_eq!(Platform::Macos.name(), "macos");
    assert_eq!(Platform::Windows.name(), "windows");
}

#[test]
fn profile_map_keeps_keys_ordered_and_replaces() {
    let mut m: StrMap<u32> = StrMap::new();
    assert_eq!(m.insert("b".to_string(), 1), None);
    assert_eq!(m.insert("a".to_string(), 2), None);
    assert_eq!(m.insert("c".to_string(), 3), None);
    assert_eq!(m.insert("b".to_string(), 4), Some(1));
    assert_eq!(m.len(), 3);
    assert_eq!(m.key_at(0), "a");
    assert_eq!(m.key_at(1), "b");
    assert_eq!(m.key_at(2), "c");
    assert_eq!(m.get("b"), Some(&4));
    assert_eq!(m.get("d"), None);
    assert!(m.contains_key("c"));
}
