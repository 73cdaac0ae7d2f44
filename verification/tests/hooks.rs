use dotflow::config::Hook;
use dotflow::hooks::{expand, hook_invocation, hook_invocations};
use dotflow::process::IoMode;
use dotflow::strmap::StrMap;

#[test]
fn expansion_uses_absolute_backend_without_shell_evaluation() {
    assert_eq!(
        expand("{repo}:{home}:{backend}:$HOME:$(x)", "/r", "/h", "/r/mise"),
        "/r:/h:/r/mise:$HOME:$(x)"
    );
}

#[test]
fn expansion_replaces_every_occurrence_in_order() {
    assert_eq!(expand("{repo}{repo}", "a", "h", "b"), "aa");
    assert_eq!(expand("{home", "a", "h", "b"), "{home");
    assert_eq!(expand("{repo}", "{home}", "H", "B"), "H");
    assert_eq!(expand("plain $HOME", "a", "h", "b"), "plain $HOME");
}

#[test]
fn hook_invocation_expands_program_args_cwd_and_env() {
    let mut env = StrMap::new();
    env.insert("DOTFILES_HOME".to_string(), "{home}".to_string());
    env.insert("A".to_string(), "x".to_string());
    let h = Hook {
        program: "{repo}/bin/tool".to_string(),
        args: vec!["--backend".to_string(), "{backend}".to_string()],
        cwd: Some("{repo}".to_string()),
        env,
    };
    let i = hook_invocation(&h, "/r", "/h", "/r/mise");
    assert_eq!(i.argv, ["/r/bin/tool", "--backend", "/r/mise"]);
    assert_eq!(i.cwd.as_deref(), Some("/r"));
    assert_eq!(i.io, IoMode::Inherit);
    assert_eq!(i.env.len(), 2);
    assert_eq!(i.env.key_at(0), "A");
    assert_eq!(i.env.value_at(1), "/h");
}

#[test]
fn hooks_need_the_home_directory() {
    let err = hook_invocations(&vec![], "/r", None, "/r/mise").unwrap_err();
    assert_eq!(err.0, "home directory is unavailable");
    assert!(hook_invocations(&vec![], "/r", Some("/h"), "/r/mise").unwrap().is_empty());
}
