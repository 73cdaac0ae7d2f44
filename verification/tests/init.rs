use dotflow::config::{default_mise_dir, Config, Environment, Repository};
use dotflow::init::{
    check_existing_config, check_init_root, check_locator_registration, choose_init_environments,
    environment_name, environment_names, init_config_text, init_mise_dir, locator_text,
    plan_init, plan_registration, FileAction, InitWrites, Registrar, Registration,
};
use dotflow::error::Error;
use dotflow::platform::Platform;
use dotflow::strmap::StrMap;

fn strings(v: &[&str]) -> Vec<String> {
    v.iter().map(|s| s.to_string()).collect()
}

#[test]
fn init_environment_detection() {
    assert_eq!(
        choose_init_environments(Platform::Windows, &strings(&["linux", "pwsh", "windows"])),
        ["windows", "pwsh"]
    );
    assert_eq!(choose_init_environments(Platform::Macos, &strings(&["darwin"])), ["darwin"]);
    assert!(choose_init_environments(Platform::Linux, &[].to_vec()).is_empty());
}

#[test]
fn init_takes_a_single_unpreferred_environment() {
    assert_eq!(choose_init_environments(Platform::Linux, &strings(&["work"])), ["work"]);
    assert!(choose_init_environments(Platform::Linux, &strings(&["a", "b"])).is_empty());
    assert_eq!(choose_init_environments(Platform::Wsl, &strings(&["LINUX", "wsl"])), ["wsl", "linux"]);
}

#[test]
fn environment_files_are_recognised_and_sorted() {
    assert_eq!(environment_name("mise.linux.toml").as_deref(), Some("linux"));
    assert_eq!(environment_name("mise.toml"), None);
    assert_eq!(environment_name("other.toml"), None);
    assert_eq!(
        environment_names(&strings(&["mise.toml", "mise.zsh.toml", "README", "mise.bash.toml"])),
        ["bash", "zsh"]
    );
}

#[test]
fn init_mise_directory_choice() {
    assert_eq!(init_mise_dir(true, true).unwrap(), "mise");
    assert_eq!(init_mise_dir(false, true).unwrap(), ".");
    assert_eq!(
        init_mise_dir(false, false).unwrap_err().0,
        "cannot initialize: no mise.toml found at repository root or mise/mise.toml"
    );
}

#[test]
fn init_registration_checks() {
    assert!(check_init_root(true).is_ok());
    assert_eq!(
        check_init_root(false).unwrap_err().0,
        "init path must be the root of an existing Git clone"
    );
    assert!(check_locator_registration("/l", "/r", "/r", "/r/.dotflow.toml", true).is_ok());
    assert_eq!(
        check_locator_registration("/l", "/other", "/r", "/r/.dotflow.toml", true).unwrap_err().0,
        "/l already registers /other; refusing to replace it"
    );
    assert_eq!(
        check_locator_registration("/l", "/r", "/r", "/r/.dotflow.toml", false).unwrap_err().0,
        "/l already registers this repository but /r/.dotflow.toml is missing; refusing a partial registration"
    );
}

#[test]
fn existing_configuration_must_agree() {
    let cfg = Config {
        schema_version: 1,
        minimum_dotflow_version: None,
        repository: Repository {
            branch: "master".to_string(),
            origin: "https://github.com/a/b".to_string(),
            mise_dir: default_mise_dir(),
        },
        common: Environment::empty(),
        profiles: StrMap::new(),
    };
    assert!(check_existing_config("/r/.dotflow.toml", &cfg, "master\n", "git@github.com:a/b.git\n").is_ok());
    assert_eq!(
        check_existing_config("/r/.dotflow.toml", &cfg, "main\n", "git@github.com:a/b.git\n")
            .unwrap_err()
            .0,
        "/r/.dotflow.toml conflicts with the current branch or origin; refusing to overwrite it"
    );
    assert!(check_existing_config("/r/.dotflow.toml", &cfg, "master", "https://github.com/a/c").is_err());
}

#[test]
fn init_configuration_text_is_exact() {
    let text = init_config_text(
        "master\n",
        "git@github.com:a/b.git\n",
        "mise",
        Platform::Windows,
        &strings(&["windows", "pwsh"]),
    );
    assert_eq!(
        text,
        "schema_version = 1\nminimum_dotflow_version = \"0.1.0\"\n\n[repository]\nbranch = \"master\"\norigin = \"git@github.com:a/b.git\"\nmise_dir = \"mise\"\n\n[profiles.windows]\nplatform = \"windows\"\nadd_environment = \"windows\"\n\n[[profiles.windows.environments]]\nmise_environment = \"windows\"\n\n[[profiles.windows.environments]]\nmise_environment = \"pwsh\"\n"
    );
    let bare = init_config_text("m", "o", ".", Platform::Linux, &vec![]);
    assert!(bare.ends_with("[profiles.linux]\nplatform = \"linux\"\n"));
}

#[test]
fn locator_text_quotes_the_path() {
    assert_eq!(locator_text("/home/u/dotfiles"), "repo = \"/home/u/dotfiles\"\n");
    assert_eq!(locator_text("C:\\d"), "repo = \"C:\\\\d\"\n");
}

fn sample_config() -> Config {
    Config {
        schema_version: 1,
        minimum_dotflow_version: None,
        repository: Repository {
            branch: "master".to_string(),
            origin: "https://github.com/a/b".to_string(),
            mise_dir: default_mise_dir(),
        },
        common: Environment::empty(),
        profiles: StrMap::new(),
    }
}

#[test]
fn init_never_overwrites_an_existing_registration() {
    let cfg = "/r/.dotflow.toml";
    let plan = |registered: Option<&str>, existing: Option<Result<Config, Error>>, branch: &str| {
        plan_registration("/l", registered, "/r", cfg, existing, branch, "git@github.com:a/b.git\n")
    };
    assert_eq!(plan(None, None, "master").unwrap(), Registration::Create);
    assert_eq!(
        plan(None, Some(Ok(sample_config())), "master\n").unwrap(),
        Registration::Keep { write_locator: true }
    );
    assert_eq!(
        plan(Some("/r"), Some(Ok(sample_config())), "master").unwrap(),
        Registration::Keep { write_locator: false }
    );
    assert_eq!(
        plan(Some("/other"), Some(Ok(sample_config())), "master").unwrap_err().0,
        "/l already registers /other; refusing to replace it"
    );
    assert_eq!(
        plan(Some("/r"), None, "master").unwrap_err().0,
        "/l already registers this repository but /r/.dotflow.toml is missing; refusing a partial registration"
    );
    assert_eq!(
        plan(None, Some(Ok(sample_config())), "main").unwrap_err().0,
        "/r/.dotflow.toml conflicts with the current branch or origin; refusing to overwrite it"
    );
    assert_eq!(
        plan(None, Some(Err(Error("invalid /r/.dotflow.toml".to_string()))), "master").unwrap_err().0,
        "invalid /r/.dotflow.toml"
    );
}

/// Drives the writing of a registration, answering each file action with
/// the given outcome; the actions asked for and the result.
fn write_all(writes: InitWrites, config_ok: bool, locator_ok: bool) -> (Vec<&'static str>, Result<(), Error>) {
    let mut w = Registrar::new(writes);
    let mut log = vec![];
    let mut answer = None;
    loop {
        answer = match w.step(answer) {
            FileAction::WriteConfig(_) => {
                log.push("config");
                Some(if config_ok { Ok(()) } else { Err(Error("cannot write /r/.dotflow.toml".to_string())) })
            },
            FileAction::WriteLocator => {
                log.push("locator");
                Some(if locator_ok { Ok(()) } else { Err(Error("cannot write /l".to_string())) })
            },
            FileAction::RemoveConfig => {
                log.push("remove");
                Some(Ok(()))
            },
            FileAction::Finish(result) => return (log, result),
        };
    }
}

fn new_files() -> InitWrites {
    InitWrites { config: Some("schema_version = 1\n".to_string()), locator: true }
}

#[test]
fn a_failed_locator_write_removes_the_new_configuration() {
    let (log, result) = write_all(new_files(), true, false);
    assert_eq!(result.unwrap_err().0, "cannot write /l");
    assert_eq!(log, ["config", "locator", "remove"]);
    let (log, result) = write_all(new_files(), true, true);
    assert!(result.is_ok());
    assert_eq!(log, ["config", "locator"]);
    let (log, result) = write_all(new_files(), false, true);
    assert!(result.is_err());
    assert_eq!(log, ["config"]);
    let (log, result) = write_all(InitWrites { config: None, locator: true }, true, false);
    assert_eq!(result.unwrap_err().0, "cannot write /l");
    assert_eq!(log, ["locator"]);
    let (log, result) = write_all(InitWrites { config: None, locator: false }, true, true);
    assert!(result.is_ok() && log.is_empty());
}

#[test]
fn every_refusal_comes_before_any_write() {
    let plan = |registered: Option<&str>, existing: Option<Result<Config, Error>>, nested: bool, at_root: bool| {
        plan_init(
            "/l",
            registered,
            "/r",
            "/r/.dotflow.toml",
            existing,
            "master\n",
            "git@github.com:a/b.git\n",
            nested,
            at_root,
            Some(Ok(strings(&["mise.toml", "mise.linux.toml"]))),
            Platform::Linux,
        )
    };
    let w = plan(None, None, true, false).unwrap();
    assert!(w.locator);
    assert!(w.config.unwrap().contains("mise_environment = \"linux\""));
    let w = plan(None, Some(Ok(sample_config())), false, false).unwrap();
    assert!(w.config.is_none() && w.locator);
    let w = plan(Some("/r"), Some(Ok(sample_config())), false, false).unwrap();
    assert!(w.config.is_none() && !w.locator);
    assert_eq!(
        plan(None, None, false, false).err().unwrap().0,
        "cannot initialize: no mise.toml found at repository root or mise/mise.toml"
    );
    assert_eq!(
        plan(Some("/other"), None, true, false).err().unwrap().0,
        "/l already registers /other; refusing to replace it"
    );
    let listing_failed = plan_init(
        "/l", None, "/r", "/r/.dotflow.toml", None, "master", "o", true, false,
        Some(Err(Error("cannot inspect /r/mise".to_string()))), Platform::Linux,
    );
    assert_eq!(listing_failed.err().unwrap().0, "cannot inspect /r/mise");
}
