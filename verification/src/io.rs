//! Output formats, and the parsing of messages written in a text
//! editor.
//!
//! An editor message consists of a title line and a body, written above
//! a cut marker; everything below the marker is help text and ignored.

use vstd::prelude::*;
use vstd::string::*;
use crate::config::ConfigValueEnum;
use crate::text::{find_idx, str_eq_ignore_ascii_case, str_ieq_spec, substr, trim_spec, trim_str};

verus! {

/// Output format for listings.
#[derive(Clone, Copy, Debug, PartialEq)]
pub enum OutputFormat {
    /// Comma-separated values.
    Csv,
    /// Tab-separated values.
    Tsv,
    /// JSON.
    Json,
}

impl ConfigValueEnum for OutputFormat {
    open spec fn from_name_spec(s: Seq<char>) -> Option<OutputFormat> {
        if str_ieq_spec(s, seq!['c', 's', 'v']) {
            Some(OutputFormat::Csv)
        } else if str_ieq_spec(s, seq!['t', 's', 'v']) {
            Some(OutputFormat::Tsv)
        } else if str_ieq_spec(s, seq!['j', 's', 'o', 'n']) {
            Some(OutputFormat::Json)
        } else {
            None
        }
    }

    fn from_config_name(s: &str) -> (r: Option<OutputFormat>) {
        proof {
            reveal_strlit("csv");
            assert(("csv")@ =~= seq!['c', 's', 'v']);
            reveal_strlit("tsv");
            assert(("tsv")@ =~= seq!['t', 's', 'v']);
            reveal_strlit("json");
            assert(("json")@ =~= seq!['j', 's', 'o', 'n']);
        }
        if str_eq_ignore_ascii_case(s, "csv") {
            Some(OutputFormat::Csv)
        } else if str_eq_ignore_ascii_case(s, "tsv") {
            Some(OutputFormat::Tsv)
        } else if str_eq_ignore_ascii_case(s, "json") {
            Some(OutputFormat::Json)
        } else {
            None
        }
    }
}

/// A message entered in a text editor: the first line is the title, the
/// rest the body.
#[derive(Debug)]
pub struct InputMessage {
    pub title: String,
    pub body: String,
}

/// Errors of editor-message parsing.
#[derive(Clone, Copy, Debug, PartialEq)]
pub enum MessageError {
    /// The cut marker was removed or modified.
    MarkerMissing,
}

/// The line separating the user's message from the help text below it.
pub const CUT_MARKER: &'static str = "# ------------------------ >8 ------------------------";

/// Start index of the last occurrence of `m` in `s`; -1 when absent.
pub open spec fn rfind_sub(s: Seq<char>, m: Seq<char>) -> int
    decreases s.len(),
{
    if m.len() == 0 || s.len() < m.len() {
        -1
    } else if s.subrange(s.len() - m.len(), s.len() as int) == m {
        s.len() - m.len()
    } else {
        rfind_sub(s.drop_last(), m)
    }
}

/// The title and body parsed from editor content: the part above the
/// last cut marker, split at its first newline, both sides trimmed.
pub open spec fn message_spec(content: Seq<char>, marker: Seq<char>) -> Option<
    (Seq<char>, Seq<char>),
> {
    let p = rfind_sub(content, marker);
    if p < 0 {
        None
    } else {
        let before = content.take(p);
        let k = find_idx(before, '\n') as int;
        if k == before.len() {
            Some((trim_spec(before), Seq::<char>::empty()))
        } else {
            Some((trim_spec(before.take(k)), trim_spec(before.skip(k + 1))))
        }
    }
}

/// Finds the last occurrence of `m` in `s`.
fn rfind_substring(s: &str, m: &str) -> (r: Option<usize>)
    ensures
        match r {
            Some(p) => rfind_sub(s@, m@) == p && p + m@.len() <= s@.len(),
            None => rfind_sub(s@, m@) == -1,
        },
{
    let n = s.unicode_len();
    let mn = m.unicode_len();
    if mn > n || mn == 0 {
        proof {
            assert(rfind_sub(s@, m@) == -1);
        }
        return None;
    }
    proof {
        assert(s@.take(n as int) =~= s@);
    }
    // end is the length of the prefix still searched
    let mut end: usize = n;
    while end >= mn
        invariant
            n == s@.len(),
            mn == m@.len(),
            1 <= mn <= n,
            mn <= end + 1,
            end <= n,
            rfind_sub(s@, m@) == rfind_sub(s@.take(end as int), m@),
        decreases end,
    {
        let ghost pre = s@.take(end as int);
        let mut j: usize = 0;
        let mut matches: bool = true;
        let base = end - mn;
        while j < mn
            invariant
                n == s@.len(),
                mn == m@.len(),
                mn <= end <= n,
                base == end - mn,
                0 <= j <= mn,
                matches ==> forall|k: int| 0 <= k < j ==> s@[base + k] == m@[k],
                !matches ==> s@.subrange(base as int, end as int) != m@,
            decreases mn - j,
        {
            if s.get_char(base + j) != m.get_char(j) {
                proof {
                    assert(s@.subrange(base as int, end as int)[j as int] == s@[base + j]);
                }
                matches = false;
                j = mn;
            } else {
                j = j + 1;
            }
        }
        proof {
            assert(pre.len() == end);
            assert(pre.subrange(end - mn, end as int) =~= s@.subrange(
                base as int,
                end as int,
            ));
        }
        if matches {
            proof {
                assert(s@.subrange(base as int, end as int) =~= m@);
                assert(rfind_sub(pre, m@) == end - mn);
            }
            return Some(base);
        }
        proof {
            assert(pre.drop_last() =~= s@.take(end - 1));
        }
        if end == mn {
            proof {
                assert(rfind_sub(s@.take((end - 1) as int), m@) == -1);
            }
            return None;
        }
        end = end - 1;
    }
    proof {
        assert(rfind_sub(s@.take(end as int), m@) == -1);
    }
    None
}

/// Parses editor content into a message: the text above the cut marker,
/// its first line as the title and the rest as the body, both trimmed.
/// Fails when the marker is gone.
pub fn parse_message(content: &str) -> (r: Result<InputMessage, MessageError>)
    ensures
        match r {
            Ok(msg) => message_spec(content@, CUT_MARKER@) == Some((msg.title@, msg.body@)),
            Err(e) => message_spec(content@, CUT_MARKER@) is None && e
                == MessageError::MarkerMissing,
        },
{
    let p = match rfind_substring(content, CUT_MARKER) {
        Some(p) => p,
        None => {
            return Err(MessageError::MarkerMissing);
        },
    };
    let before = substr(content, 0, p);
    let bn = before.as_str().unicode_len();
    match crate::text::find_char(before.as_str(), '\n') {
        Some(k) => {
            let title_part = substr(before.as_str(), 0, k);
            let body_part = substr(before.as_str(), k + 1, bn);
            let title = trim_str(title_part.as_str());
            let body = trim_str(body_part.as_str());
            Ok(InputMessage { title, body })
        },
        None => {
            let title = trim_str(before.as_str());
            let body = String::new();
            Ok(InputMessage { title, body })
        },
    }
}

} // verus!
