use dotflow::error::Error;
use dotflow::locator::{locator_path_for, resolve_repo_from, resolve_repo_with};

fn same(p: String) -> String {
    p
}

#[test]
fn the_chosen_repository_is_made_canonical() {
    let canon = |p: String| format!("/real{p}");
    assert_eq!(
        resolve_repo_from(Some("/c".to_string()), None, Some("/l".to_string()), "/f".to_string(), canon)
            .unwrap(),
        "/real/c"
    );
    assert_eq!(
        resolve_repo_with(None, None, || Ok(None), || Ok("/f".to_string()), |p: String| format!("/real{p}"))
            .unwrap(),
        "/real/f"
    );
}

#[test]
fn repository_precedence_is_explicit_and_race_free() {
    let located = Some("/t/located".to_string());
    assert_eq!(
        resolve_repo_from(
            Some("/t/cli".to_string()),
            Some("/t/env".to_string()),
            located.clone(),
            "/t/fallback".to_string(),
            same,
        )
        .unwrap(),
        "/t/cli"
    );
    assert_eq!(
        resolve_repo_from(None, Some("/t/env".to_string()), located.clone(), "/t/fallback".to_string(), same)
            .unwrap(),
        "/t/env"
    );
    assert_eq!(
        resolve_repo_from(None, None, located, "/t/fallback".to_string(), same).unwrap(),
        "/t/located"
    );
    assert_eq!(resolve_repo_from(None, None, None, "/t/fallback".to_string(), same).unwrap(), "/t/fallback");
}

#[test]
fn explicit_repository_does_not_discover_lower_precedence_paths() {
    let path = "explicit".to_string();
    assert_eq!(
        resolve_repo_with(
            Some(path.clone()),
            None,
            || panic!("locator must not be evaluated"),
            || panic!("home fallback must not be evaluated"),
            same,
        )
        .unwrap(),
        path
    );
}

#[test]
fn environment_repository_does_not_discover_lower_precedence_paths() {
    let path = "environment".to_string();
    assert_eq!(
        resolve_repo_with(
            None,
            Some(path.clone()),
            || panic!("locator must not be evaluated"),
            || panic!("home fallback must not be evaluated"),
            same,
        )
        .unwrap(),
        path
    );
}

#[test]
fn locator_repository_does_not_require_home() {
    let located = "/t/located".to_string();
    assert_eq!(
        resolve_repo_with(
            None,
            None,
            || Ok(Some(located.clone())),
            || Err(Error("home directory is unavailable".into())),
            same,
        )
        .unwrap(),
        located
    );
}

#[test]
fn home_is_required_only_for_the_final_fallback() {
    let error = resolve_repo_with(
        None,
        None,
        || Ok(None),
        || Err(Error("home directory is unavailable".into())),
        same,
    )
    .unwrap_err();
    assert_eq!(error.message(), "home directory is unavailable");
}

#[test]
fn locator_error_stops_resolution() {
    let error = resolve_repo_with(
        None,
        None,
        || Err(Error("invalid locator".into())),
        || panic!("home fallback must not be evaluated"),
        same,
    )
    .unwrap_err();
    assert_eq!(error.0, "invalid locator");
}

#[test]
fn locator_path_precedence() {
    assert_eq!(
        locator_path_for(Some("C:/AppData"), Some("/x"), Some("/h")).unwrap(),
        "C:/AppData/dotflow/config.toml"
    );
    assert_eq!(locator_path_for(None, Some("/x/"), Some("/h")).unwrap(), "/x/dotflow/config.toml");
    assert_eq!(locator_path_for(None, None, Some("/h")).unwrap(), "/h/.config/dotflow/config.toml");
    assert_eq!(locator_path_for(None, None, None).unwrap_err().0, "home directory is unavailable");
}
