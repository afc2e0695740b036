//! Forge detection and URL building.

use git_forge::browse::{
    split_path_line, url_for_commit, url_for_home, url_for_issue, url_for_issues, url_for_path,
    url_for_pr, url_for_prs,
};
use git_forge::forge::{
    choose_api_type, get_api_base_url, get_pr_ref, get_web_url, guess_api_type_from_host,
    guess_forge_type_from_host, ApiType,
};
use git_forge::git_url::GitRemoteData;
use git_forge::web::WebTarget;

fn remote(host: &str, path: &str, port: Option<u16>) -> GitRemoteData {
    GitRemoteData {
        host: host.to_string(),
        path: path.to_string(),
        port,
    }
}

#[test]
fn test_guess_api_type_from_host() {
    let github_result = guess_api_type_from_host("https://github.com");

    assert!(github_result.is_ok());
    assert_eq!(github_result.unwrap(), ApiType::GitHub);

    let gitlab_result = guess_api_type_from_host("https://gitlab.com");

    assert!(gitlab_result.is_ok());
    assert_eq!(gitlab_result.unwrap(), ApiType::GitLab);

    let gitea_result = guess_api_type_from_host("https://gitea.com/");

    assert!(gitea_result.is_ok());
    assert_eq!(gitea_result.unwrap(), ApiType::Gitea);

    let forgejo_result = guess_api_type_from_host("https://codeberg.org/");

    assert!(forgejo_result.is_ok());
    assert_eq!(forgejo_result.unwrap(), ApiType::Forgejo);

    let unknown_forge_result = guess_api_type_from_host("https://localhost/");

    assert!(unknown_forge_result.is_err());
}

#[test]
fn test_guess_forge_type_from_host() {
    let github_result = guess_forge_type_from_host("https://github.com");

    assert!(github_result.is_ok());
    assert_eq!(github_result.unwrap(), ApiType::GitHub);

    let gitlab_result = guess_forge_type_from_host("https://gitlab.com");

    assert!(gitlab_result.is_ok());
    assert_eq!(gitlab_result.unwrap(), ApiType::GitLab);

    let gitea_result = guess_forge_type_from_host("https://gitea.com/");

    assert!(gitea_result.is_ok());
    assert_eq!(gitea_result.unwrap(), ApiType::Gitea);

    let forgejo_result = guess_forge_type_from_host("https://codeberg.org/");

    assert!(forgejo_result.is_ok());
    assert_eq!(forgejo_result.unwrap(), ApiType::Forgejo);

    let unknown_forge_result = guess_forge_type_from_host("https://localhost/");

    assert!(unknown_forge_result.is_err());
}

#[test]
fn test_guess_is_case_insensitive() {
    // fails if the lowercase folding were the identity
    assert_eq!(guess_api_type_from_host("GITHUB.COM").unwrap(), ApiType::GitHub);
    assert_eq!(guess_api_type_from_host("GitLab.example").unwrap(), ApiType::GitLab);
}

#[test]
fn test_choose_api_type() {
    let rd = remote("gitlab.example.com", "a/b", None);

    assert_eq!(choose_api_type(Some(ApiType::Gitea), None).unwrap(), ApiType::Gitea);
    assert_eq!(choose_api_type(None, Some(&rd)).unwrap(), ApiType::GitLab);
    assert!(choose_api_type(None, None).is_err());
}

#[test]
fn test_api_base_urls() {
    let dotcom = remote("github.com", "user/repo", None);
    let ghe = remote("git.corp.example", "user/repo", None);
    let ported = remote("git.corp.example", "user/repo", Some(8443));

    assert_eq!(
        get_api_base_url(ApiType::GitHub, None, Some(&dotcom)).unwrap(),
        "https://api.github.com"
    );
    assert_eq!(
        get_api_base_url(ApiType::GitHub, None, Some(&ghe)).unwrap(),
        "https://git.corp.example/api/v3"
    );
    assert_eq!(
        get_api_base_url(ApiType::GitLab, None, Some(&ported)).unwrap(),
        "https://git.corp.example:8443/api/v4"
    );
    assert_eq!(
        get_api_base_url(ApiType::Gitea, None, Some(&ghe)).unwrap(),
        "https://git.corp.example/api/v1"
    );
    let explicit = "https://example.com/api".to_string();
    assert_eq!(
        get_api_base_url(ApiType::Gitea, Some(&explicit), None).unwrap(),
        "https://example.com/api"
    );
    assert!(get_api_base_url(ApiType::Gitea, None, None).is_err());
}

#[test]
fn test_web_urls() {
    let rd = remote("github.com", "user/repo", None);
    let gl = remote("gitlab.com", "user/repo", Some(8443));

    assert_eq!(
        get_web_url(ApiType::GitHub, Some(&rd), WebTarget::Repository).unwrap(),
        "https://github.com/user/repo"
    );
    assert_eq!(
        get_web_url(ApiType::GitHub, Some(&rd), WebTarget::Issues).unwrap(),
        "https://github.com/user/repo/issues"
    );
    assert_eq!(
        get_web_url(ApiType::GitHub, Some(&rd), WebTarget::Prs).unwrap(),
        "https://github.com/user/repo/pulls"
    );
    assert_eq!(
        get_web_url(ApiType::GitLab, Some(&gl), WebTarget::Mrs).unwrap(),
        "https://gitlab.com:8443/user/repo/-/merge_requests"
    );
    assert!(get_web_url(ApiType::GitHub, None, WebTarget::Repository).is_err());
}

#[test]
fn test_pr_refs() {
    assert_eq!(get_pr_ref(ApiType::GitHub, 42), "pull/42/head");
    assert_eq!(get_pr_ref(ApiType::Gitea, 7), "pull/7/head");
    assert_eq!(get_pr_ref(ApiType::GitLab, 42), "merge-requests/42/head");
}

#[test]
fn test_browse_urls() {
    let gh = remote("github.com", "user/repo", None);
    let gl = remote("gitlab.com", "user/repo", None);
    let gt = remote("gitea.com", "user/repo", None);

    assert_eq!(url_for_home(&gh), "https://github.com/user/repo");
    assert_eq!(
        url_for_commit(ApiType::GitHub, &gh, "abc123"),
        "https://github.com/user/repo/commit/abc123"
    );
    assert_eq!(
        url_for_commit(ApiType::GitLab, &gl, "abc123"),
        "https://gitlab.com/user/repo/-/commit/abc123"
    );
    assert_eq!(url_for_issues(ApiType::GitHub, &gh), "https://github.com/user/repo/issues");
    assert_eq!(
        url_for_issue(ApiType::GitLab, &gl, 9),
        "https://gitlab.com/user/repo/-/issues/9"
    );
    assert_eq!(url_for_prs(ApiType::Gitea, &gt), "https://gitea.com/user/repo/pulls");
    assert_eq!(
        url_for_pr(ApiType::GitHub, &gh, 12),
        "https://github.com/user/repo/pull/12"
    );
    assert_eq!(
        url_for_pr(ApiType::Gitea, &gt, 12),
        "https://gitea.com/user/repo/pulls/12"
    );
    assert_eq!(
        url_for_path(ApiType::GitHub, &gh, "src/main.rs", "HEAD", Some(10)),
        "https://github.com/user/repo/blob/HEAD/src/main.rs#L10"
    );
    assert_eq!(
        url_for_path(ApiType::Gitea, &gt, "src/main.rs", "HEAD", None),
        "https://gitea.com/user/repo/src/commit/HEAD/src/main.rs"
    );
}

#[test]
fn test_split_path_line() {
    assert_eq!(split_path_line("src/main.rs:10"), ("src/main.rs".to_string(), Some(10)));
    assert_eq!(split_path_line("src/main.rs"), ("src/main.rs".to_string(), None));
    assert_eq!(split_path_line("weird:name"), ("weird:name".to_string(), None));
}
