//! Parsing of git remote URLs.

use git_forge::git_url::{parse_remote_url, GitRemoteData};

#[test]
fn test_parse_remote_url_https() {
    // https://github.com/user/repo.git
    let result = parse_remote_url("https://github.com/user/repo.git");

    assert!(result.is_some());
    assert_eq!(
        result.unwrap(),
        GitRemoteData {
            host: "github.com".to_string(),
            path: "user/repo".to_string(),
            port: None,
        }
    );

    // https://github.com/user/repo (without .git)
    let result = parse_remote_url("https://github.com/user/repo");

    assert!(result.is_some());
    assert_eq!(
        result.unwrap(),
        GitRemoteData {
            host: "github.com".to_string(),
            path: "user/repo".to_string(),
            port: None,
        }
    );
}

#[test]
fn test_parse_remote_url_https_with_port() {
    // https://gitlab.example.com:8443/user/repo.git
    let result = parse_remote_url("https://gitlab.example.com:8443/user/repo.git");

    assert!(result.is_some());
    assert_eq!(
        result.unwrap(),
        GitRemoteData {
            host: "gitlab.example.com".to_string(),
            path: "user/repo".to_string(),
            port: Some(8443),
        }
    );

    // https://localhost:3000/user/repo
    let result = parse_remote_url("https://localhost:3000/user/repo");

    assert!(result.is_some());
    assert_eq!(
        result.unwrap(),
        GitRemoteData {
            host: "localhost".to_string(),
            path: "user/repo".to_string(),
            port: Some(3000),
        }
    );
}

#[test]
fn test_parse_remote_url_ssh() {
    // ssh://git@github.com/user/repo.git
    let result = parse_remote_url("ssh://git@github.com/user/repo.git");

    assert!(result.is_some());
    assert_eq!(
        result.unwrap(),
        GitRemoteData {
            host: "github.com".to_string(),
            path: "user/repo".to_string(),
            port: None,
        }
    );

    // ssh://git@github.com/user/repo (without .git)
    let result = parse_remote_url("ssh://git@github.com/user/repo");

    assert!(result.is_some());
    assert_eq!(
        result.unwrap(),
        GitRemoteData {
            host: "github.com".to_string(),
            path: "user/repo".to_string(),
            port: None,
        }
    );
}

#[test]
fn test_parse_remote_url_ssh_with_port() {
    // ssh://git@gitlab.example.com:2222/user/repo.git
    let result = parse_remote_url("ssh://git@gitlab.example.com:2222/user/repo.git");

    assert!(result.is_some());
    assert_eq!(
        result.unwrap(),
        GitRemoteData {
            host: "gitlab.example.com".to_string(),
            path: "user/repo".to_string(),
            port: Some(2222),
        }
    );

    // ssh://git@localhost:22022/user/repo
    let result = parse_remote_url("ssh://git@localhost:22022/user/repo");

    assert!(result.is_some());
    assert_eq!(
        result.unwrap(),
        GitRemoteData {
            host: "localhost".to_string(),
            path: "user/repo".to_string(),
            port: Some(22022),
        }
    );
}

#[test]
fn test_parse_remote_url_git_ssh() {
    // git@github.com:user/repo.git
    let result = parse_remote_url("git@github.com:user/repo.git");

    assert!(result.is_some());
    assert_eq!(
        result.unwrap(),
        GitRemoteData {
            host: "github.com".to_string(),
            path: "user/repo".to_string(),
            port: None,
        }
    );

    // git@github.com:user/repo (without .git)
    let result = parse_remote_url("git@github.com:user/repo");

    assert!(result.is_some());
    assert_eq!(
        result.unwrap(),
        GitRemoteData {
            host: "github.com".to_string(),
            path: "user/repo".to_string(),
            port: None,
        }
    );
}

#[test]
fn test_parse_remote_url_rejects_unknown_format() {
    assert!(parse_remote_url("http://github.com/user/repo").is_none());
    assert!(parse_remote_url("https://github.com").is_none());
    assert!(parse_remote_url("git@github.com").is_none());
    assert!(parse_remote_url("").is_none());
}

#[test]
fn test_parse_remote_url_rejects_bad_port() {
    assert!(parse_remote_url("https://github.com:notaport/user/repo").is_none());
    assert!(parse_remote_url("https://github.com:99999/user/repo").is_none());
}
