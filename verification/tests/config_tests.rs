//! Configuration lookups: path variants, scope precedence, and typed
//! getters.

use git_forge::config::{Config, ConfigScope, ConfigSource, get_path_variants};
use git_forge::git_url::GitRemoteData;

fn create_git_remote(host: &str, path: &str, port: Option<u16>) -> GitRemoteData {
    GitRemoteData {
        host: host.to_string(),
        path: path.to_string(),
        port,
    }
}

#[test]
fn test_get_path_variants_simple() {
    let variants = get_path_variants("editor");
    assert_eq!(variants, vec!["editor"]);
}

#[test]
fn test_get_path_variants_two_levels() {
    let variants = get_path_variants("pr/editor");
    assert_eq!(variants, vec!["pr/editor", "editor"]);
}

#[test]
fn test_get_path_variants_three_levels() {
    let variants = get_path_variants("pr/create/editor");
    assert_eq!(variants, vec!["pr/create/editor", "pr/editor", "editor"]);
}

#[test]
fn test_get_path_variants_four_levels() {
    let variants = get_path_variants("foo/bar/baz/baz");
    assert_eq!(
        variants,
        vec!["foo/bar/baz/baz", "foo/bar/baz", "foo/baz", "baz"]
    );
}

#[test]
fn test_scope_precedence_remote_wins() {
    let mut config = Config::new();
    let remote = create_git_remote("github.com", "user/repo", None);

    config.set_value("editor", "global-vim", ConfigSource::Global);
    config.set_value("editor", "host-nano", ConfigSource::Host(&remote));
    config.set_value("editor", "remote-emacs", ConfigSource::Remote(&remote));

    let (value, scope) = config.get_value_effective("editor", Some(&remote)).unwrap();
    assert_eq!(value, "remote-emacs");
    assert_eq!(scope, ConfigScope::Remote);
}

#[test]
fn test_scope_precedence_host_wins_when_no_remote() {
    let mut config = Config::new();
    let remote = create_git_remote("github.com", "user/repo", None);

    config.set_value("editor", "global-vim", ConfigSource::Global);
    config.set_value("editor", "host-nano", ConfigSource::Host(&remote));

    let (value, scope) = config.get_value_effective("editor", Some(&remote)).unwrap();
    assert_eq!(value, "host-nano");
    assert_eq!(scope, ConfigScope::Host);
}

#[test]
fn test_scope_precedence_global_wins_when_no_host_or_remote() {
    let mut config = Config::new();
    let remote = create_git_remote("github.com", "user/repo", None);

    config.set_value("editor", "global-vim", ConfigSource::Global);

    let (value, scope) = config.get_value_effective("editor", Some(&remote)).unwrap();
    assert_eq!(value, "global-vim");
    assert_eq!(scope, ConfigScope::Global);
}

#[test]
fn test_scope_precedence_no_remote_context() {
    let mut config = Config::new();
    let host_remote = create_git_remote("github.com", "user/repo", None);

    config.set_value("editor", "global-vim", ConfigSource::Global);
    config.set_value("editor", "host-nano", ConfigSource::Host(&host_remote));

    let (value, scope) = config.get_value_effective("editor", None).unwrap();
    assert_eq!(value, "global-vim");
    assert_eq!(scope, ConfigScope::Global);
}

#[test]
fn test_scope_precedence_path_hierarchy() {
    let mut config = Config::new();
    let remote = create_git_remote("github.com", "user/repo", None);

    config.set_value("pr/create/editor", "specific", ConfigSource::Global);
    config.set_value("editor", "general", ConfigSource::Global);

    let (value, _) = config
        .get_value_effective("pr/create/editor", Some(&remote))
        .unwrap();
    assert_eq!(value, "specific");

    let (value, _) = config
        .get_value_effective("pr/list/editor", Some(&remote))
        .unwrap();
    assert_eq!(value, "general");
}

#[test]
fn test_get_bool_true() {
    let mut config = Config::new();

    config.set_value("flag", "true", ConfigSource::Global);

    assert_eq!(config.get_bool("flag", None), Some(true));
}

#[test]
fn test_get_bool_false() {
    let mut config = Config::new();

    config.set_value("flag", "false", ConfigSource::Global);

    assert_eq!(config.get_bool("flag", None), Some(false));
}

#[test]
fn test_get_bool_invalid_values() {
    let mut config = Config::new();
    let invalid_values = vec!["1", "0", "yes", "no", "True", "False", "invalid"];

    for value in invalid_values {
        config.set_value("flag", value, ConfigSource::Global);
        assert_eq!(
            config.get_bool("flag", None),
            None,
            "Expected None for value: {}",
            value
        );
    }
}

#[test]
fn test_get_u32_valid() {
    let mut config = Config::new();
    config.set_value("count", "42", ConfigSource::Global);

    assert_eq!(config.get_u32("count", None), Some(42));
}

#[test]
fn test_get_u32_text_returns_none() {
    let mut config = Config::new();
    config.set_value("count", "abc", ConfigSource::Global);

    assert_eq!(config.get_u32("count", None), None);
}

#[test]
fn test_get_u32_edge_cases() {
    let mut config = Config::new();

    // a leading '+' and leading zeros are accepted, as str::parse does
    config.set_value("count", "+42", ConfigSource::Global);
    assert_eq!(config.get_u32("count", None), Some(42));
    config.set_value("count", "0042", ConfigSource::Global);
    assert_eq!(config.get_u32("count", None), Some(42));

    // out of range and malformed values are rejected
    config.set_value("count", "4294967296", ConfigSource::Global);
    assert_eq!(config.get_u32("count", None), None);
    config.set_value("count", "-1", ConfigSource::Global);
    assert_eq!(config.get_u32("count", None), None);
    config.set_value("count", "4 2", ConfigSource::Global);
    assert_eq!(config.get_u32("count", None), None);
    config.set_value("count", "+", ConfigSource::Global);
    assert_eq!(config.get_u32("count", None), None);
}

#[test]
fn test_get_string() {
    let mut config = Config::new();

    config.set_value("editor", "vim", ConfigSource::Global);

    assert_eq!(
        config.get_string_from_global_scope("editor"),
        Some("vim".to_string())
    );
    assert_eq!(config.get_string("nonexistent", None), None);
}

#[test]
fn test_get_enum_all_variants() {
    let mut config = Config::new();

    config.set_value("scope", "global", ConfigSource::Global);

    assert_eq!(
        config.get_enum::<ConfigScope>("scope", None).unwrap(),
        ConfigScope::Global
    );

    config.set_value("scope", "host", ConfigSource::Global);

    assert_eq!(
        config.get_enum::<ConfigScope>("scope", None).unwrap(),
        ConfigScope::Host
    );

    config.set_value("scope", "remote", ConfigSource::Global);

    assert_eq!(
        config.get_enum::<ConfigScope>("scope", None).unwrap(),
        ConfigScope::Remote
    );
}

#[test]
fn test_get_enum_vec() {
    let mut config = Config::new();
    config.set_value("scopes", "global,host, remote", ConfigSource::Global);

    let result = config.get_enum_vec::<ConfigScope>("scopes", None).unwrap();

    assert_eq!(result.len(), 3);
    assert_eq!(result[0], ConfigScope::Global);
    assert_eq!(result[1], ConfigScope::Host);
    assert_eq!(result[2], ConfigScope::Remote);
}

#[test]
fn test_get_enum_vec_filters_invalid() {
    let mut config = Config::new();
    config.set_value("scopes", "global,invalid,host", ConfigSource::Global);

    let result = config.get_enum_vec::<ConfigScope>("scopes", None).unwrap();

    assert_eq!(result.len(), 2);
    assert_eq!(result[0], ConfigScope::Global);
    assert_eq!(result[1], ConfigScope::Host);
}

#[test]
fn test_unset_value() {
    let mut config = Config::new();
    let remote = create_git_remote("gitea.io", "me/repo", Some(3000));

    config.set_value("editor", "vim", ConfigSource::Global);
    config.set_value("editor", "nano", ConfigSource::Host(&remote));

    assert!(config.unset_value("editor", ConfigSource::Global));
    assert_eq!(config.get_string("editor", None), None);
    assert!(!config.unset_value("editor", ConfigSource::Global));

    assert!(config.unset_value("editor", ConfigSource::Host(&remote)));
    assert_eq!(config.get_string("editor", Some(&remote)), None);
}

#[test]
fn test_host_key_includes_port() {
    let mut config = Config::new();
    let with_port = create_git_remote("git.example.com", "a/b", Some(8443));
    let without_port = create_git_remote("git.example.com", "a/b", None);

    config.set_value("editor", "ported", ConfigSource::Host(&with_port));

    assert_eq!(config.get_string("editor", Some(&without_port)), None);
    assert_eq!(
        config.get_string("editor", Some(&with_port)),
        Some("ported".to_string())
    );
}

#[test]
fn test_get_enum_is_case_insensitive() {
    let mut config = Config::new();
    config.set_value("scope", "GLOBAL", ConfigSource::Global);

    assert_eq!(
        config.get_enum::<ConfigScope>("scope", None).unwrap(),
        ConfigScope::Global
    );
}

#[test]
fn test_config_source_new_requires_remote() {
    let remote = create_git_remote("github.com", "user/repo", None);

    assert!(ConfigSource::new(ConfigScope::Global, None).is_ok());
    assert!(ConfigSource::new(ConfigScope::Host, None).is_err());
    assert!(ConfigSource::new(ConfigScope::Remote, None).is_err());
    assert!(ConfigSource::new(ConfigScope::Host, Some(&remote)).is_ok());
    assert!(ConfigSource::new(ConfigScope::Remote, Some(&remote)).is_ok());
}
