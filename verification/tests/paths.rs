use dotflow::text::path_key_of;

#[test]
fn path_keys_follow_path_components() {
    assert_eq!(path_key_of("/a//b/./c/"), "/a/b/c");
    assert_eq!(path_key_of("./a/b"), "./a/b");
    assert_eq!(path_key_of("a/./b/."), "a/b");
    assert_eq!(path_key_of("//a"), "/a");
    assert_eq!(path_key_of("/"), "/");
    assert_eq!(path_key_of(""), "");
    assert_eq!(path_key_of("a/../b"), "a/../b");
    assert_eq!(path_key_of("/repo/mise/mise.//x.toml"), path_key_of("/repo/mise/mise./x.toml"));
}
