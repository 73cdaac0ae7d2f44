use dotflow::shell::shell_init;

#[test]
fn shell_functions_handle_no_args() {
    for s in ["bash", "zsh", "fish", "powershell"] {
        assert!(shell_init(s).unwrap().contains("dotflow"));
    }
}

#[test]
fn unsupported_shell_is_rejected() {
    assert_eq!(shell_init("tcsh").unwrap_err().0, "unsupported shell: tcsh");
    assert!(shell_init("Bash").is_err());
}

#[test]
fn bash_function_is_exact() {
    assert_eq!(
        shell_init("bash").unwrap(),
        "dotflow() { if [ \"${1-}\" = cd ]; then shift; cd \"$(command dotflow root \"$@\")\"; else command dotflow \"$@\"; fi; }\n"
    );
}
