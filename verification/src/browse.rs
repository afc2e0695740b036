//! The `browse` subcommand: building web URLs for repository pages,
//! commits, issues, pull requests and files.

use vstd::prelude::*;
use vstd::string::*;
use crate::forge::{repo_base_spec, ApiType};
use crate::git_url::GitRemoteData;
use crate::text::{
    dec_str, is_uint_str, parse_u32_str, push_char, rfind_char, substr, u32_to_string, uint_val,
};

verus! {

/// Command-line arguments for the `browse` subcommand.
pub struct BrowseCommandArgs {
    /// Forge type override; detected from the host when absent.
    pub api: Option<ApiType>,
    /// Commit-ish to open; with a path, the file at that commit.
    pub commit: Option<String>,
    /// Open the issues page, or one specific issue.
    pub issues: Option<Option<u32>>,
    /// Print the URL instead of opening a browser.
    pub no_browser: bool,
    /// The file or directory to open, optionally with `:<line>`.
    pub path: Option<String>,
    /// Open the PRs page, or one specific PR.
    pub prs: Option<Option<u32>>,
    /// Git remote to use.
    pub remote: Option<String>,
}

/// The URL of the repository's home page.
pub fn url_for_home(remote: &GitRemoteData) -> (r: String)
    ensures
        r@ == repo_base_spec(*remote),
{
    crate::forge::build_repo_base(remote)
}

/// The path segment a forge inserts before repository subpages.
pub open spec fn forge_infix(api: ApiType) -> Seq<char> {
    match api {
        ApiType::GitLab => seq!['/', '-'],
        _ => Seq::<char>::empty(),
    }
}

fn append_infix(r: &mut String, api: ApiType)
    ensures
        final(r)@ == old(r)@ + forge_infix(api),
{
    match api {
        ApiType::GitLab => {
            push_char(r, '/');
            push_char(r, '-');
        },
        _ => {
            proof {
                assert(old(r)@ + forge_infix(api) =~= old(r)@);
            }
        },
    }
}

/// The URL of a commit page.
pub open spec fn commit_url_spec(api: ApiType, rd: GitRemoteData, sha: Seq<char>) -> Seq<char> {
    repo_base_spec(rd) + forge_infix(api) + seq!['/', 'c', 'o', 'm', 'm', 'i', 't', '/'] + sha
}

pub fn url_for_commit(api: ApiType, remote: &GitRemoteData, commit: &str) -> (r: String)
    ensures
        r@ == commit_url_spec(api, *remote, commit@),
{
    proof {
        reveal_strlit("/commit/");
        assert(("/commit/")@ =~= seq!['/', 'c', 'o', 'm', 'm', 'i', 't', '/']);
    }
    let mut r = crate::forge::build_repo_base(remote);
    append_infix(&mut r, api);
    r.append("/commit/");
    r.append(commit);
    proof {
        assert(r@ =~= commit_url_spec(api, *remote, commit@));
    }
    r
}

/// The URL of the issues page.
pub open spec fn issues_url_spec(api: ApiType, rd: GitRemoteData) -> Seq<char> {
    repo_base_spec(rd) + forge_infix(api) + seq!['/', 'i', 's', 's', 'u', 'e', 's']
}

pub fn url_for_issues(api: ApiType, remote: &GitRemoteData) -> (r: String)
    ensures
        r@ == issues_url_spec(api, *remote),
{
    proof {
        reveal_strlit("/issues");
        assert(("/issues")@ =~= seq!['/', 'i', 's', 's', 'u', 'e', 's']);
    }
    let mut r = crate::forge::build_repo_base(remote);
    append_infix(&mut r, api);
    r.append("/issues");
    proof {
        assert(r@ =~= issues_url_spec(api, *remote));
    }
    r
}

/// The URL of one issue's page.
pub open spec fn issue_url_spec(api: ApiType, rd: GitRemoteData, number: u32) -> Seq<char> {
    issues_url_spec(api, rd) + seq!['/'] + dec_str(number as int)
}

pub fn url_for_issue(api: ApiType, remote: &GitRemoteData, number: u32) -> (r: String)
    ensures
        r@ == issue_url_spec(api, *remote, number),
{
    let mut r = url_for_issues(api, remote);
    push_char(&mut r, '/');
    let digits = u32_to_string(number);
    r.append(digits.as_str());
    proof {
        assert(r@ =~= issue_url_spec(api, *remote, number));
    }
    r
}

/// The URL of the pull requests page.
pub open spec fn prs_url_spec(api: ApiType, rd: GitRemoteData) -> Seq<char> {
    match api {
        ApiType::GitLab => repo_base_spec(rd) + seq![
            '/',
            '-',
            '/',
            'm',
            'e',
            'r',
            'g',
            'e',
            '_',
            'r',
            'e',
            'q',
            'u',
            'e',
            's',
            't',
            's',
        ],
        _ => repo_base_spec(rd) + seq!['/', 'p', 'u', 'l', 'l', 's'],
    }
}

pub fn url_for_prs(api: ApiType, remote: &GitRemoteData) -> (r: String)
    ensures
        r@ == prs_url_spec(api, *remote),
{
    proof {
        reveal_strlit("/-/merge_requests");
        assert(("/-/merge_requests")@ =~= seq![
            '/',
            '-',
            '/',
            'm',
            'e',
            'r',
            'g',
            'e',
            '_',
            'r',
            'e',
            'q',
            'u',
            'e',
            's',
            't',
            's',
        ]);
        reveal_strlit("/pulls");
        assert(("/pulls")@ =~= seq!['/', 'p', 'u', 'l', 'l', 's']);
    }
    let mut r = crate::forge::build_repo_base(remote);
    match api {
        ApiType::GitLab => r.append("/-/merge_requests"),
        _ => r.append("/pulls"),
    }
    proof {
        assert(r@ =~= prs_url_spec(api, *remote));
    }
    r
}

/// The URL of one pull request's page.
pub open spec fn pr_url_spec(api: ApiType, rd: GitRemoteData, number: u32) -> Seq<char> {
    match api {
        ApiType::GitHub => repo_base_spec(rd) + seq!['/', 'p', 'u', 'l', 'l', '/'] + dec_str(
            number as int,
        ),
        _ => prs_url_spec(api, rd) + seq!['/'] + dec_str(number as int),
    }
}

pub fn url_for_pr(api: ApiType, remote: &GitRemoteData, number: u32) -> (r: String)
    ensures
        r@ == pr_url_spec(api, *remote, number),
{
    proof {
        reveal_strlit("/pull/");
        assert(("/pull/")@ =~= seq!['/', 'p', 'u', 'l', 'l', '/']);
    }
    let digits = u32_to_string(number);
    match api {
        ApiType::GitHub => {
            let mut r = crate::forge::build_repo_base(remote);
            r.append("/pull/");
            r.append(digits.as_str());
            proof {
                assert(r@ =~= pr_url_spec(api, *remote, number));
            }
            r
        },
        _ => {
            let mut r = url_for_prs(api, remote);
            push_char(&mut r, '/');
            r.append(digits.as_str());
            proof {
                assert(r@ =~= pr_url_spec(api, *remote, number));
            }
            r
        },
    }
}

/// The path segment each forge serves files under.
pub open spec fn blob_infix(api: ApiType) -> Seq<char> {
    match api {
        ApiType::GitHub => seq!['/', 'b', 'l', 'o', 'b', '/'],
        ApiType::GitLab => seq!['/', '-', '/', 'b', 'l', 'o', 'b', '/'],
        ApiType::Gitea | ApiType::Forgejo => seq![
            '/',
            's',
            'r',
            'c',
            '/',
            'c',
            'o',
            'm',
            'm',
            'i',
            't',
            '/',
        ],
    }
}

/// The URL of a file at a commit, with an optional line anchor.
pub open spec fn path_url_spec(
    api: ApiType,
    rd: GitRemoteData,
    path: Seq<char>,
    commit: Seq<char>,
    line: Option<u32>,
) -> Seq<char> {
    let base = repo_base_spec(rd) + blob_infix(api) + commit + seq!['/'] + path;
    match line {
        Some(n) => base + seq!['#', 'L'] + dec_str(n as int),
        None => base,
    }
}

pub fn url_for_path(
    api: ApiType,
    remote: &GitRemoteData,
    path: &str,
    commit: &str,
    line: Option<u32>,
) -> (r: String)
    ensures
        r@ == path_url_spec(api, *remote, path@, commit@, line),
{
    proof {
        reveal_strlit("/blob/");
        assert(("/blob/")@ =~= seq!['/', 'b', 'l', 'o', 'b', '/']);
        reveal_strlit("/-/blob/");
        assert(("/-/blob/")@ =~= seq!['/', '-', '/', 'b', 'l', 'o', 'b', '/']);
        reveal_strlit("/src/commit/");
        assert(("/src/commit/")@ =~= seq![
            '/',
            's',
            'r',
            'c',
            '/',
            'c',
            'o',
            'm',
            'm',
            'i',
            't',
            '/',
        ]);
        reveal_strlit("#L");
        assert(("#L")@ =~= seq!['#', 'L']);
    }
    let mut r = crate::forge::build_repo_base(remote);
    match api {
        ApiType::GitHub => r.append("/blob/"),
        ApiType::GitLab => r.append("/-/blob/"),
        ApiType::Gitea | ApiType::Forgejo => r.append("/src/commit/"),
    }
    r.append(commit);
    push_char(&mut r, '/');
    r.append(path);
    match line {
        Some(n) => {
            r.append("#L");
            let digits = u32_to_string(n);
            r.append(digits.as_str());
        },
        None => {},
    }
    proof {
        assert(r@ =~= path_url_spec(api, *remote, path@, commit@, line));
    }
    r
}

/// What splitting a `<path>[:<line>]` argument yields: the trailing
/// `:<line>` is split off only when it parses as a number.
pub open spec fn path_line_spec(p: Seq<char>) -> (Seq<char>, Option<u32>) {
    let i = crate::git_url::rfind_idx(p, ':');
    if i < 0 {
        (p, None)
    } else {
        let line_part = p.skip(i + 1);
        if is_uint_str(line_part) && uint_val(line_part) <= u32::MAX {
            (p.take(i), Some(uint_val(line_part) as u32))
        } else {
            (p, None)
        }
    }
}

/// Splits a `<path>[:<line>]` argument into the path and the line
/// number, keeping the whole argument when what follows the last colon
/// is not a number.
pub fn split_path_line(path: &str) -> (r: (String, Option<u32>))
    ensures
        (r.0@, r.1) == path_line_spec(path@),
{
    proof {
        crate::git_url::lemma_rfind_idx(path@, ':');
    }
    let n = path.unicode_len();
    match rfind_char(path, ':') {
        None => {
            proof {
                if crate::git_url::rfind_idx(path@, ':') >= 0 {
                    assert(path@[crate::git_url::rfind_idx(path@, ':')] == ':');
                }
            }
            (path.to_owned(), None)
        },
        Some(i) => {
            proof {
                if i < crate::git_url::rfind_idx(path@, ':') {
                    assert(path@[crate::git_url::rfind_idx(path@, ':')] != ':');
                }
                if crate::git_url::rfind_idx(path@, ':') < i {
                    assert(path@[i as int] != ':');
                }
                assert(i == crate::git_url::rfind_idx(path@, ':'));
            }
            let line_part = substr(path, i + 1, n);
            match parse_u32_str(line_part.as_str()) {
                Some(line) => (substr(path, 0, i), Some(line)),
                None => (path.to_owned(), None),
            }
        },
    }
}

} // verus!
