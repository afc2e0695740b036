//! Parsing of git remote URLs into host, repository path and port.
//!
//! Three formats are recognised:
//! - HTTPS: `https://<host>[:<port>]/<user>/<repo>[.git]`
//! - SSH: `ssh://git@<host>[:<port>]/<user>/<repo>[.git]`
//! - Git SSH: `git@<host>:<user>/<repo>[.git]` (no port in this format)

use vstd::prelude::*;
use vstd::string::*;
use crate::text::{
    find_char, find_idx, is_uint_str, parse_u16_str, strip_prefix_str, strip_suffix_str, substr,
    uint_val,
};

verus! {

/// Parsed data from a git remote URL.
#[derive(Debug, PartialEq)]
pub struct GitRemoteData {
    /// The hostname (e.g. "github.com").
    pub host: String,
    /// The repository path (e.g. "user/repo").
    pub path: String,
    /// The port, when the URL names one.
    pub port: Option<u16>,
}

/// Index of the last occurrence of `c` in `s`; -1 when absent.
pub open spec fn rfind_idx(s: Seq<char>, c: char) -> int
    decreases s.len(),
{
    if s.len() == 0 {
        -1
    } else if s.last() == c {
        s.len() - 1
    } else {
        rfind_idx(s.drop_last(), c)
    }
}

pub proof fn lemma_rfind_idx(s: Seq<char>, c: char)
    ensures
        -1 <= rfind_idx(s, c) < s.len(),
        rfind_idx(s, c) >= 0 ==> s[rfind_idx(s, c)] == c,
        forall|j: int| rfind_idx(s, c) < j < s.len() ==> s[j] != c,
    decreases s.len(),
{
    if s.len() > 0 && s.last() != c {
        lemma_rfind_idx(s.drop_last(), c);
        assert forall|j: int| rfind_idx(s, c) < j < s.len() implies s[j] != c by {
            if j < s.len() - 1 {
                assert(s.drop_last()[j] == s[j]);
            }
        }
        if rfind_idx(s, c) >= 0 {
            assert(s.drop_last()[rfind_idx(s, c)] == s[rfind_idx(s, c)]);
        }
    }
}

/// What splitting `<host>[:<port>]` at the last colon yields: the host
/// and the port, or nothing when the part after the colon is not a valid
/// port number.
pub open spec fn host_port_spec(s: Seq<char>) -> Option<(Seq<char>, Option<u16>)> {
    let i = rfind_idx(s, ':');
    if i < 0 {
        Some((s, None))
    } else {
        let port_str = s.skip(i + 1);
        if is_uint_str(port_str) && uint_val(port_str) <= u16::MAX {
            Some((s.take(i), Some(uint_val(port_str) as u16)))
        } else {
            None
        }
    }
}

/// Splits `<host>[:<port>]` at the last colon; `None` when a colon is
/// present but what follows is not a valid port number.
pub fn parse_host_port(host_str: &str) -> (r: Option<(String, Option<u16>)>)
    ensures
        match r {
            Some(v) => host_port_spec(host_str@) == Some((v.0@, v.1)),
            None => host_port_spec(host_str@) is None,
        },
{
    proof {
        lemma_rfind_idx(host_str@, ':');
    }
    let n = host_str.unicode_len();
    match crate::text::rfind_char(host_str, ':') {
        None => {
            proof {
                if rfind_idx(host_str@, ':') >= 0 {
                    assert(host_str@[rfind_idx(host_str@, ':')] == ':');
                }
            }
            Some((host_str.to_owned(), None))
        },
        Some(i) => {
            proof {
                if i < rfind_idx(host_str@, ':') {
                    assert(host_str@[rfind_idx(host_str@, ':')] != ':');
                }
                if rfind_idx(host_str@, ':') < i {
                    assert(host_str@[i as int] != ':');
                }
                assert(i == rfind_idx(host_str@, ':'));
            }
            let port_str = substr(host_str, i + 1, n);
            match parse_u16_str(port_str.as_str()) {
                Some(port) => Some((substr(host_str, 0, i), Some(port))),
                None => None,
            }
        },
    }
}

/// Strips a trailing `.git`, if present.
pub open spec fn strip_git_suffix(s: Seq<char>) -> Seq<char> {
    if s.len() >= 4 && s.skip(s.len() - 4) == seq!['.', 'g', 'i', 't'] {
        s.take(s.len() - 4)
    } else {
        s
    }
}

/// What parsing `<hostpart>/<pathpart>` (after a scheme prefix, split at
/// the first slash) yields.
pub open spec fn host_path_spec(rest: Seq<char>) -> Option<(Seq<char>, Seq<char>, Option<u16>)> {
    let k = find_idx(rest, '/') as int;
    if k == rest.len() {
        None
    } else {
        match host_port_spec(rest.take(k)) {
            Some((host, port)) => Some(
                (host, strip_git_suffix(rest.skip(k + 1)), port),
            ),
            None => None,
        }
    }
}

/// What parsing a git remote URL yields: host, repository path (without
/// any `.git` suffix) and optional port, for the three supported
/// formats; `None` for anything else.
pub open spec fn remote_url_spec(u: Seq<char>) -> Option<(Seq<char>, Seq<char>, Option<u16>)> {
    let https = seq!['h', 't', 't', 'p', 's', ':', '/', '/'];
    let ssh = seq!['s', 's', 'h', ':', '/', '/', 'g', 'i', 't', '@'];
    let gitat = seq!['g', 'i', 't', '@'];
    if u.len() >= https.len() && u.take(https.len() as int) == https {
        host_path_spec(u.skip(https.len() as int))
    } else if u.len() >= ssh.len() && u.take(ssh.len() as int) == ssh {
        host_path_spec(u.skip(ssh.len() as int))
    } else if u.len() >= gitat.len() && u.take(gitat.len() as int) == gitat {
        let rest = u.skip(gitat.len() as int);
        let k = find_idx(rest, ':') as int;
        if k == rest.len() {
            None
        } else {
            Some((rest.take(k), strip_git_suffix(rest.skip(k + 1)), None))
        }
    } else {
        None
    }
}

/// Parses the part after a scheme prefix: `<host>[:<port>]/<path>[.git]`.
fn parse_host_path(rest: &str) -> (r: Option<GitRemoteData>)
    ensures
        match r {
            Some(d) => host_path_spec(rest@) == Some((d.host@, d.path@, d.port)),
            None => host_path_spec(rest@) is None,
        },
{
    let n = rest.unicode_len();
    let k = match find_char(rest, '/') {
        Some(k) => k,
        None => {
            return None;
        },
    };
    let host_part = substr(rest, 0, k);
    let path_part = substr(rest, k + 1, n);
    let (host, port) = match parse_host_port(host_part.as_str()) {
        Some(v) => v,
        None => {
            return None;
        },
    };
    let path = strip_dot_git(path_part.as_str());
    Some(GitRemoteData { host, path, port })
}

/// Removes a trailing `.git`, if present.
fn strip_dot_git(s: &str) -> (r: String)
    ensures
        r@ == strip_git_suffix(s@),
{
    match strip_suffix_str(s, ".git") {
        Some(t) => {
            proof {
                reveal_strlit(".git");
                assert((".git")@ =~= seq!['.', 'g', 'i', 't']);
            }
            t
        },
        None => {
            proof {
                reveal_strlit(".git");
                assert((".git")@ =~= seq!['.', 'g', 'i', 't']);
            }
            s.to_owned()
        },
    }
}

/// Parses a git remote URL into its components; `None` for an
/// unrecognised format.
pub fn parse_remote_url(url: &str) -> (r: Option<GitRemoteData>)
    ensures
        match r {
            Some(d) => remote_url_spec(url@) == Some((d.host@, d.path@, d.port)),
            None => remote_url_spec(url@) is None,
        },
{
    proof {
        reveal_strlit("https://");
        assert(("https://")@ =~= seq!['h', 't', 't', 'p', 's', ':', '/', '/']);
        reveal_strlit("ssh://git@");
        assert(("ssh://git@")@ =~= seq!['s', 's', 'h', ':', '/', '/', 'g', 'i', 't', '@']);
        reveal_strlit("git@");
        assert(("git@")@ =~= seq!['g', 'i', 't', '@']);
    }
    if let Some(rest) = strip_prefix_str(url, "https://") {
        return parse_host_path(rest.as_str());
    }
    if let Some(rest) = strip_prefix_str(url, "ssh://git@") {
        return parse_host_path(rest.as_str());
    }
    if let Some(rest) = strip_prefix_str(url, "git@") {
        let n = rest.as_str().unicode_len();
        let k = match find_char(rest.as_str(), ':') {
            Some(k) => k,
            None => {
                return None;
            },
        };
        let host = substr(rest.as_str(), 0, k);
        let path_part = substr(rest.as_str(), k + 1, n);
        let path = strip_dot_git(path_part.as_str());
        return Some(GitRemoteData { host, path, port: None });
    }
    None
}

} // verus!
