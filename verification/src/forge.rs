//! Forge detection and forge-specific URL building.
//!
//! The forge type is guessed from keywords in the lowercased host name;
//! API base URLs, web URLs and pull-request refs then follow each
//! forge's conventions.

use vstd::prelude::*;
use vstd::string::*;
use crate::config::{host_key_spec, remote_key_spec, ConfigValueEnum};
use crate::git_url::GitRemoteData;
use crate::text::{
    dec_str, has_substring, lower_of, push_char, str_contains, str_eq, str_eq_ignore_ascii_case,
    str_ieq_spec, to_lowercase, u32_to_string,
};
use crate::web::WebTarget;

verus! {

/// The API flavour a forge speaks.
#[derive(Clone, Copy, Debug, PartialEq)]
pub enum ApiType {
    GitHub,
    GitLab,
    Gitea,
    Forgejo,
}

impl ConfigValueEnum for ApiType {
    open spec fn from_name_spec(s: Seq<char>) -> Option<ApiType> {
        if str_ieq_spec(s, seq!['g', 'i', 't', 'h', 'u', 'b']) {
            Some(ApiType::GitHub)
        } else if str_ieq_spec(s, seq!['g', 'i', 't', 'l', 'a', 'b']) {
            Some(ApiType::GitLab)
        } else if str_ieq_spec(s, seq!['g', 'i', 't', 'e', 'a']) {
            Some(ApiType::Gitea)
        } else if str_ieq_spec(s, seq!['f', 'o', 'r', 'g', 'e', 'j', 'o']) {
            Some(ApiType::Forgejo)
        } else {
            None
        }
    }

    fn from_config_name(s: &str) -> (r: Option<ApiType>) {
        proof {
            reveal_strlit("github");
            assert(("github")@ =~= seq!['g', 'i', 't', 'h', 'u', 'b']);
            reveal_strlit("gitlab");
            assert(("gitlab")@ =~= seq!['g', 'i', 't', 'l', 'a', 'b']);
            reveal_strlit("gitea");
            assert(("gitea")@ =~= seq!['g', 'i', 't', 'e', 'a']);
            reveal_strlit("forgejo");
            assert(("forgejo")@ =~= seq!['f', 'o', 'r', 'g', 'e', 'j', 'o']);
        }
        if str_eq_ignore_ascii_case(s, "github") {
            Some(ApiType::GitHub)
        } else if str_eq_ignore_ascii_case(s, "gitlab") {
            Some(ApiType::GitLab)
        } else if str_eq_ignore_ascii_case(s, "gitea") {
            Some(ApiType::Gitea)
        } else if str_eq_ignore_ascii_case(s, "forgejo") {
            Some(ApiType::Forgejo)
        } else {
            None
        }
    }
}

/// Errors of forge handling.
#[derive(Clone, Copy, Debug, PartialEq)]
pub enum ForgeError {
    /// No supported forge keyword occurs in the host name.
    UnknownForge,
    /// Remote data was needed but not available.
    MissingRemote,
}

/// The forge named by keywords in an (already lowercased) host name:
/// `github`, `gitlab` and `gitea` in that order of precedence, then
/// `forgejo` or `codeberg`.
pub open spec fn forge_of_host(h: Seq<char>) -> Option<ApiType> {
    if has_substring(h, seq!['g', 'i', 't', 'h', 'u', 'b']) {
        Some(ApiType::GitHub)
    } else if has_substring(h, seq!['g', 'i', 't', 'l', 'a', 'b']) {
        Some(ApiType::GitLab)
    } else if has_substring(h, seq!['g', 'i', 't', 'e', 'a']) {
        Some(ApiType::Gitea)
    } else if has_substring(h, seq!['f', 'o', 'r', 'g', 'e', 'j', 'o']) || has_substring(
        h,
        seq!['c', 'o', 'd', 'e', 'b', 'e', 'r', 'g'],
    ) {
        Some(ApiType::Forgejo)
    } else {
        None
    }
}

/// Guesses the forge type from keywords in the host name, case
/// insensitively.
pub fn guess_api_type_from_host(host: &str) -> (r: Result<ApiType, ForgeError>)
    ensures
        match r {
            Ok(t) => forge_of_host(lower_of(host@)) == Some(t),
            Err(e) => forge_of_host(lower_of(host@)) is None && e == ForgeError::UnknownForge,
        },
{
    proof {
        reveal_strlit("github");
        assert(("github")@ =~= seq!['g', 'i', 't', 'h', 'u', 'b']);
        reveal_strlit("gitlab");
        assert(("gitlab")@ =~= seq!['g', 'i', 't', 'l', 'a', 'b']);
        reveal_strlit("gitea");
        assert(("gitea")@ =~= seq!['g', 'i', 't', 'e', 'a']);
        reveal_strlit("forgejo");
        assert(("forgejo")@ =~= seq!['f', 'o', 'r', 'g', 'e', 'j', 'o']);
        reveal_strlit("codeberg");
        assert(("codeberg")@ =~= seq!['c', 'o', 'd', 'e', 'b', 'e', 'r', 'g']);
    }
    let lower = to_lowercase(host);
    if str_contains(lower.as_str(), "github") {
        Ok(ApiType::GitHub)
    } else if str_contains(lower.as_str(), "gitlab") {
        Ok(ApiType::GitLab)
    } else if str_contains(lower.as_str(), "gitea") {
        Ok(ApiType::Gitea)
    } else if str_contains(lower.as_str(), "forgejo") {
        Ok(ApiType::Forgejo)
    } else if str_contains(lower.as_str(), "codeberg") {
        Ok(ApiType::Forgejo)
    } else {
        Err(ForgeError::UnknownForge)
    }
}

/// Guesses the forge type from the host name; same keyword rules.
pub fn guess_forge_type_from_host(host: &str) -> (r: Result<ApiType, ForgeError>)
    ensures
        match r {
            Ok(t) => forge_of_host(lower_of(host@)) == Some(t),
            Err(e) => forge_of_host(lower_of(host@)) is None && e == ForgeError::UnknownForge,
        },
{
    guess_api_type_from_host(host)
}

/// The forge to talk to: an explicit choice wins, otherwise the host
/// name of the parsed remote decides.
pub fn choose_api_type(api: Option<ApiType>, remote: Option<&GitRemoteData>) -> (r: Result<
    ApiType,
    ForgeError,
>)
    ensures
        match api {
            Some(t) => r == Result::<ApiType, ForgeError>::Ok(t),
            None => match remote {
                Some(rd) => match r {
                    Ok(t) => forge_of_host(lower_of(rd.host@)) == Some(t),
                    Err(e) => forge_of_host(lower_of(rd.host@)) is None && e
                        == ForgeError::UnknownForge,
                },
                None => r == Result::<ApiType, ForgeError>::Err(ForgeError::MissingRemote),
            },
        },
{
    match api {
        Some(t) => Ok(t),
        None => match remote {
            Some(rd) => guess_forge_type_from_host(rd.host.as_str()),
            None => Err(ForgeError::MissingRemote),
        },
    }
}

pub open spec fn https_seq() -> Seq<char> {
    seq!['h', 't', 't', 'p', 's', ':', '/', '/']
}

/// `https://<host>[:<port>]/<path>`: the web address of a repository.
pub open spec fn repo_base_spec(rd: GitRemoteData) -> Seq<char> {
    https_seq() + remote_key_spec(rd)
}

/// Builds `https://<host>[:<port>]`, optionally followed by `/<path>`.
fn build_https_host(rd: &GitRemoteData, with_path: bool) -> (r: String)
    ensures
        with_path ==> r@ == repo_base_spec(*rd),
        !with_path ==> r@ == https_seq() + host_key_spec(*rd),
{
    proof {
        reveal_strlit("https://");
        assert(("https://")@ =~= https_seq());
    }
    let mut r = String::new();
    r.append("https://");
    r.append(rd.host.as_str());
    match rd.port {
        Some(p) => {
            push_char(&mut r, ':');
            let digits = u32_to_string(p as u32);
            r.append(digits.as_str());
        },
        None => {},
    }
    proof {
        assert(r@ =~= https_seq() + host_key_spec(*rd));
    }
    if with_path {
        push_char(&mut r, '/');
        r.append(rd.path.as_str());
        proof {
            assert(r@ =~= repo_base_spec(*rd));
        }
    }
    r
}

/// Builds `https://<host>[:<port>]/<path>`, a repository's web address.
pub fn build_repo_base(remote: &GitRemoteData) -> (r: String)
    ensures
        r@ == repo_base_spec(*remote),
{
    build_https_host(remote, true)
}

/// The API base URL each forge expects when none is given explicitly.
pub open spec fn api_base_spec(api: ApiType, rd: GitRemoteData) -> Seq<char> {
    let base = https_seq() + host_key_spec(rd);
    match api {
        ApiType::GitHub => if rd.host@ == seq![
            'g',
            'i',
            't',
            'h',
            'u',
            'b',
            '.',
            'c',
            'o',
            'm',
        ] {
            seq![
                'h',
                't',
                't',
                'p',
                's',
                ':',
                '/',
                '/',
                'a',
                'p',
                'i',
                '.',
                'g',
                'i',
                't',
                'h',
                'u',
                'b',
                '.',
                'c',
                'o',
                'm',
            ]
        } else {
            base + seq!['/', 'a', 'p', 'i', '/', 'v', '3']
        },
        ApiType::GitLab => base + seq!['/', 'a', 'p', 'i', '/', 'v', '4'],
        ApiType::Gitea | ApiType::Forgejo => base + seq!['/', 'a', 'p', 'i', '/', 'v', '1'],
    }
}

/// The API base URL to call: an explicit URL wins; otherwise it is
/// derived from the remote, which must then be present.
pub fn get_api_base_url(api: ApiType, api_url: Option<&String>, remote: Option<&GitRemoteData>)
    -> (r: Result<String, ForgeError>)
    ensures
        match api_url {
            Some(u) => r matches Ok(v) && v@ == u@,
            None => match remote {
                Some(rd) => r matches Ok(v) && v@ == api_base_spec(api, *rd),
                None => r == Result::<String, ForgeError>::Err(ForgeError::MissingRemote),
            },
        },
{
    if let Some(u) = api_url {
        return Ok(u.clone());
    }
    let rd = match remote {
        Some(rd) => rd,
        None => {
            return Err(ForgeError::MissingRemote);
        },
    };
    proof {
        reveal_strlit("github.com");
        assert(("github.com")@ =~= seq!['g', 'i', 't', 'h', 'u', 'b', '.', 'c', 'o', 'm']);
        reveal_strlit("https://api.github.com");
        assert(("https://api.github.com")@ =~= seq![
            'h',
            't',
            't',
            'p',
            's',
            ':',
            '/',
            '/',
            'a',
            'p',
            'i',
            '.',
            'g',
            'i',
            't',
            'h',
            'u',
            'b',
            '.',
            'c',
            'o',
            'm',
        ]);
        reveal_strlit("/api/v3");
        assert(("/api/v3")@ =~= seq!['/', 'a', 'p', 'i', '/', 'v', '3']);
        reveal_strlit("/api/v4");
        assert(("/api/v4")@ =~= seq!['/', 'a', 'p', 'i', '/', 'v', '4']);
        reveal_strlit("/api/v1");
        assert(("/api/v1")@ =~= seq!['/', 'a', 'p', 'i', '/', 'v', '1']);
    }
    match api {
        ApiType::GitHub => {
            if str_eq(rd.host.as_str(), "github.com") {
                let mut r = String::new();
                r.append("https://api.github.com");
                Ok(r)
            } else {
                let mut r = build_https_host(rd, false);
                r.append("/api/v3");
                Ok(r)
            }
        },
        ApiType::GitLab => {
            let mut r = build_https_host(rd, false);
            r.append("/api/v4");
            Ok(r)
        },
        ApiType::Gitea | ApiType::Forgejo => {
            let mut r = build_https_host(rd, false);
            r.append("/api/v1");
            Ok(r)
        },
    }
}

/// The web URL of a target page on a forge.
pub open spec fn web_url_spec(api: ApiType, rd: GitRemoteData, target: WebTarget) -> Seq<char> {
    let base = repo_base_spec(rd);
    match target {
        WebTarget::Repository => base,
        WebTarget::Issues => match api {
            ApiType::GitLab => base + seq!['/', '-', '/', 'i', 's', 's', 'u', 'e', 's'],
            _ => base + seq!['/', 'i', 's', 's', 'u', 'e', 's'],
        },
        WebTarget::Prs | WebTarget::Mrs => match api {
            ApiType::GitLab => base + seq![
                '/',
                '-',
                '/',
                'm',
                'e',
                'r',
                'g',
                'e',
                '_',
                'r',
                'e',
                'q',
                'u',
                'e',
                's',
                't',
                's',
            ],
            _ => base + seq!['/', 'p', 'u', 'l', 'l', 's'],
        },
    }
}

/// Builds the web URL for a target page; the remote must be known.
pub fn get_web_url(api: ApiType, remote: Option<&GitRemoteData>, target: WebTarget) -> (r: Result<
    String,
    ForgeError,
>)
    ensures
        match remote {
            Some(rd) => r matches Ok(v) && v@ == web_url_spec(api, *rd, target),
            None => r == Result::<String, ForgeError>::Err(ForgeError::MissingRemote),
        },
{
    let rd = match remote {
        Some(rd) => rd,
        None => {
            return Err(ForgeError::MissingRemote);
        },
    };
    proof {
        reveal_strlit("/issues");
        assert(("/issues")@ =~= seq!['/', 'i', 's', 's', 'u', 'e', 's']);
        reveal_strlit("/-/issues");
        assert(("/-/issues")@ =~= seq!['/', '-', '/', 'i', 's', 's', 'u', 'e', 's']);
        reveal_strlit("/pulls");
        assert(("/pulls")@ =~= seq!['/', 'p', 'u', 'l', 'l', 's']);
        reveal_strlit("/-/merge_requests");
        assert(("/-/merge_requests")@ =~= seq![
            '/',
            '-',
            '/',
            'm',
            'e',
            'r',
            'g',
            'e',
            '_',
            'r',
            'e',
            'q',
            'u',
            'e',
            's',
            't',
            's',
        ]);
    }
    let mut r = build_https_host(rd, true);
    match target {
        WebTarget::Repository => {},
        WebTarget::Issues => {
            match api {
                ApiType::GitLab => r.append("/-/issues"),
                _ => r.append("/issues"),
            }
        },
        WebTarget::Prs | WebTarget::Mrs => {
            match api {
                ApiType::GitLab => r.append("/-/merge_requests"),
                _ => r.append("/pulls"),
            }
        },
    }
    Ok(r)
}

/// The git ref a forge serves a pull request under.
pub open spec fn pr_ref_spec(api: ApiType, pr_number: u32) -> Seq<char> {
    match api {
        ApiType::GitLab => seq![
            'm',
            'e',
            'r',
            'g',
            'e',
            '-',
            'r',
            'e',
            'q',
            'u',
            'e',
            's',
            't',
            's',
            '/',
        ] + dec_str(pr_number as int) + seq!['/', 'h', 'e', 'a', 'd'],
        _ => seq!['p', 'u', 'l', 'l', '/'] + dec_str(pr_number as int) + seq![
            '/',
            'h',
            'e',
            'a',
            'd',
        ],
    }
}

/// The git ref string for fetching a pull request.
pub fn get_pr_ref(api: ApiType, pr_number: u32) -> (r: String)
    ensures
        r@ == pr_ref_spec(api, pr_number),
{
    proof {
        reveal_strlit("pull/");
        assert(("pull/")@ =~= seq!['p', 'u', 'l', 'l', '/']);
        reveal_strlit("merge-requests/");
        assert(("merge-requests/")@ =~= seq![
            'm',
            'e',
            'r',
            'g',
            'e',
            '-',
            'r',
            'e',
            'q',
            'u',
            'e',
            's',
            't',
            's',
            '/',
        ]);
        reveal_strlit("/head");
        assert(("/head")@ =~= seq!['/', 'h', 'e', 'a', 'd']);
    }
    let mut r = String::new();
    match api {
        ApiType::GitLab => r.append("merge-requests/"),
        _ => r.append("pull/"),
    }
    let digits = u32_to_string(pr_number);
    r.append(digits.as_str());
    r.append("/head");
    proof {
        assert(r@ =~= pr_ref_spec(api, pr_number));
    }
    r
}

} // verus!
