//! Pull requests: the domain type, client-side filtering, and TSV
//! output.

use vstd::prelude::*;
use vstd::string::*;
use crate::config::ConfigValueEnum;
use crate::forge::ApiType;
use crate::text::{
    dec_str, join_char, join_strings, str_eq, str_eq_ignore_ascii_case, str_ieq_spec, trim_spec,
    trim_str, u32_to_string,
};

verus! {

/// Pull request state filter.
#[derive(Clone, Copy, Debug, PartialEq)]
pub enum PrState {
    /// Open pull requests that haven't been closed or merged.
    Open,
    /// Closed pull requests that were not merged.
    Closed,
    /// Pull requests that have been merged.
    Merged,
    /// All pull requests regardless of state.
    All,
}

impl ConfigValueEnum for PrState {
    open spec fn from_name_spec(s: Seq<char>) -> Option<PrState> {
        if str_ieq_spec(s, seq!['o', 'p', 'e', 'n']) {
            Some(PrState::Open)
        } else if str_ieq_spec(s, seq!['c', 'l', 'o', 's', 'e', 'd']) {
            Some(PrState::Closed)
        } else if str_ieq_spec(s, seq!['m', 'e', 'r', 'g', 'e', 'd']) {
            Some(PrState::Merged)
        } else if str_ieq_spec(s, seq!['a', 'l', 'l']) {
            Some(PrState::All)
        } else {
            None
        }
    }

    fn from_config_name(s: &str) -> (r: Option<PrState>) {
        proof {
            reveal_strlit("open");
            assert(("open")@ =~= seq!['o', 'p', 'e', 'n']);
            reveal_strlit("closed");
            assert(("closed")@ =~= seq!['c', 'l', 'o', 's', 'e', 'd']);
            reveal_strlit("merged");
            assert(("merged")@ =~= seq!['m', 'e', 'r', 'g', 'e', 'd']);
            reveal_strlit("all");
            assert(("all")@ =~= seq!['a', 'l', 'l']);
        }
        if str_eq_ignore_ascii_case(s, "open") {
            Some(PrState::Open)
        } else if str_eq_ignore_ascii_case(s, "closed") {
            Some(PrState::Closed)
        } else if str_eq_ignore_ascii_case(s, "merged") {
            Some(PrState::Merged)
        } else if str_eq_ignore_ascii_case(s, "all") {
            Some(PrState::All)
        } else {
            None
        }
    }
}

impl PrState {
    /// The lowercase name of the state, as used in queries and output.
    pub fn name(&self) -> (r: String)
        ensures
            r@ == match *self {
                PrState::Open => seq!['o', 'p', 'e', 'n'],
                PrState::Closed => seq!['c', 'l', 'o', 's', 'e', 'd'],
                PrState::Merged => seq!['m', 'e', 'r', 'g', 'e', 'd'],
                PrState::All => seq!['a', 'l', 'l'],
            },
    {
        proof {
            reveal_strlit("open");
            assert(("open")@ =~= seq!['o', 'p', 'e', 'n']);
            reveal_strlit("closed");
            assert(("closed")@ =~= seq!['c', 'l', 'o', 's', 'e', 'd']);
            reveal_strlit("merged");
            assert(("merged")@ =~= seq!['m', 'e', 'r', 'g', 'e', 'd']);
            reveal_strlit("all");
            assert(("all")@ =~= seq!['a', 'l', 'l']);
        }
        match *self {
            PrState::Open => ("open").to_owned(),
            PrState::Closed => ("closed").to_owned(),
            PrState::Merged => ("merged").to_owned(),
            PrState::All => ("all").to_owned(),
        }
    }
}

/// A pull request from a git forge.
#[derive(Clone)]
pub struct Pr {
    /// The pull request number (e.g. #42).
    pub id: u32,
    /// The pull request title.
    pub title: String,
    /// The current state (open, closed, merged).
    pub state: String,
    /// The username of the pull request author.
    pub author: String,
    /// The web URL to view this pull request.
    pub url: String,
    /// Labels attached to this pull request.
    pub labels: Vec<String>,
    /// Timestamp when the pull request was created.
    pub created_at: String,
    /// Timestamp when the pull request was last updated.
    pub updated_at: String,
    /// The source branch (head) of the pull request.
    pub source_branch: String,
    /// The target branch (base) of the pull request.
    pub target_branch: String,
    /// Whether the pull request is a draft.
    pub draft: bool,
}

pub open spec fn merged_seq() -> Seq<char> {
    seq!['m', 'e', 'r', 'g', 'e', 'd']
}

/// Whether a pull request survives the client-side filters: the state
/// filter (merged / not merged, by the state string), the author, the
/// required labels, and the draft flag.
pub open spec fn keeps_pr(
    pr: Pr,
    state: PrState,
    author: Option<Seq<char>>,
    labels: Seq<Seq<char>>,
    draft: bool,
) -> bool {
    &&& match state {
        PrState::Merged => pr.state@ == merged_seq(),
        PrState::Closed => pr.state@ != merged_seq(),
        _ => true,
    }
    &&& match author {
        Some(a) => pr.author@ == a,
        None => true,
    }
    &&& has_all_labels_spec(pr, labels)
    &&& (draft ==> pr.draft)
}

/// Whether one of the pull request's labels equals `l`.
pub open spec fn pr_has_label(pr: Pr, l: Seq<char>) -> bool {
    exists|j: int| 0 <= j < pr.labels@.len() && (#[trigger] pr.labels@[j])@ == l
}

/// Whether the pull request carries every one of the given labels.
pub open spec fn has_all_labels_spec(pr: Pr, labels: Seq<Seq<char>>) -> bool {
    forall|i: int| 0 <= i < labels.len() ==> pr_has_label(pr, #[trigger] labels[i])
}

/// The pull requests surviving the filters, in order.
pub open spec fn filtered_prs(
    prs: Seq<Pr>,
    state: PrState,
    author: Option<Seq<char>>,
    labels: Seq<Seq<char>>,
    draft: bool,
) -> Seq<Pr>
    decreases prs.len(),
{
    if prs.len() == 0 {
        seq![]
    } else {
        let rest = filtered_prs(prs.drop_first(), state, author, labels, draft);
        if keeps_pr(prs[0], state, author, labels, draft) {
            seq![prs[0]] + rest
        } else {
            rest
        }
    }
}

/// Checks every given label against the pull request's labels.
fn pr_has_all_labels(pr: &Pr, labels: &Vec<String>) -> (r: bool)
    ensures
        r == has_all_labels_spec(*pr, labels.deep_view()),
{
    let ghost lv = labels.deep_view();
    let mut li: usize = 0;
    while li < labels.len()
        invariant
            lv == labels.deep_view(),
            0 <= li <= lv.len(),
            labels@.len() == lv.len(),
            forall|m: int| 0 <= m < li ==> pr_has_label(*pr, #[trigger] lv[m]),
        decreases lv.len() - li,
    {
        let mut found = false;
        let mut j: usize = 0;
        while j < pr.labels.len()
            invariant
                0 <= j <= pr.labels@.len(),
                li < lv.len(),
                lv == labels.deep_view(),
                labels@.len() == lv.len(),
                found ==> pr_has_label(*pr, lv[li as int]),
                !found ==> forall|m: int|
                    0 <= m < j ==> (#[trigger] pr.labels@[m])@ != lv[li as int],
            decreases pr.labels@.len() - j,
        {
            if str_eq(pr.labels[j].as_str(), labels[li].as_str()) {
                proof {
                    assert((pr.labels@[j as int])@ == lv[li as int]);
                }
                found = true;
            }
            j = j + 1;
        }
        if !found {
            proof {
                assert(!pr_has_label(*pr, lv[li as int])) by {
                    if pr_has_label(*pr, lv[li as int]) {
                        let w = choose|w: int|
                            0 <= w < pr.labels@.len() && (#[trigger] pr.labels@[w])@ == lv[
                                li as int];
                        assert(false);
                    }
                }
                assert(!has_all_labels_spec(*pr, lv)) by {
                    if has_all_labels_spec(*pr, lv) {
                        assert(pr_has_label(*pr, lv[li as int]));
                    }
                }
            }
            return false;
        }
        li = li + 1;
    }
    true
}

/// Applies the client-side filters a forge API cannot: by merge state,
/// author, required labels, and draft flag.
pub fn filter_prs(
    prs: Vec<Pr>,
    state: PrState,
    author: Option<&String>,
    labels: &Vec<String>,
    draft: bool,
) -> (r: Vec<Pr>)
    ensures
        ({
            let a = match author {
                Some(s) => Some(s@),
                None => None,
            };
            r@ == filtered_prs(prs@, state, a, labels.deep_view(), draft)
        }),
{
    proof {
        reveal_strlit("merged");
        assert(("merged")@ =~= merged_seq());
    }
    let ghost a = match author {
        Some(s) => Some(s@),
        None => None,
    };
    let ghost lv = labels.deep_view();
    let ghost orig = prs@;
    let mut prs = prs;
    let mut out: Vec<Pr> = Vec::new();
    proof {
        assert(out@ + filtered_prs(prs@, state, a, lv, draft) =~= filtered_prs(
            orig,
            state,
            a,
            lv,
            draft,
        ));
    }
    while prs.len() > 0
        invariant
            lv == labels.deep_view(),
            a == (match author {
                Some(s) => Some(s@),
                None => None,
            }),
            filtered_prs(orig, state, a, lv, draft) == out@ + filtered_prs(
                prs@,
                state,
                a,
                lv,
                draft,
            ),
        decreases prs@.len(),
    {
        let ghost pre = prs@;
        let pr = prs.remove(0);
        proof {
            reveal_strlit("merged");
            assert(("merged")@ =~= merged_seq());
            assert(prs@ =~= pre.drop_first());
            assert(pr == pre[0]);
        }
        let state_ok = match state {
            PrState::Merged => str_eq(pr.state.as_str(), "merged"),
            PrState::Closed => !str_eq(pr.state.as_str(), "merged"),
            _ => true,
        };
        let author_ok = match author {
            Some(name) => str_eq(pr.author.as_str(), name.as_str()),
            None => true,
        };
        let labels_ok = pr_has_all_labels(&pr, labels);
        let draft_ok = !draft || pr.draft;
        let keep = state_ok && author_ok && labels_ok && draft_ok;
        proof {
            assert(keep == keeps_pr(pre[0], state, a, lv, draft));
        }
        if keep {
            out.push(pr);
            proof {
                assert(filtered_prs(orig, state, a, lv, draft) =~= out@ + filtered_prs(
                    prs@,
                    state,
                    a,
                    lv,
                    draft,
                ));
            }
        }
    }
    proof {
        assert(filtered_prs(orig, state, a, lv, draft) =~= out@);
    }
    out
}

/// A TSV-safe rendering of a value: tabs and line breaks become spaces,
/// and surrounding whitespace is trimmed.
pub open spec fn escape_tsv_spec(v: Seq<char>) -> Seq<char> {
    trim_spec(
        crate::text::replace_char_spec(
            crate::text::replace_crlf_spec(crate::text::replace_char_spec(v, '\t', ' ')),
            '\n',
            ' ',
        ),
    )
}

/// Makes a value safe for TSV output.
pub fn escape_tsv(value: &str) -> (r: String)
    ensures
        r@ == escape_tsv_spec(value@),
{
    let t1 = crate::text::replace_char(value, '\t', ' ');
    let t2 = crate::text::replace_crlf(t1.as_str());
    let t3 = crate::text::replace_char(t2.as_str(), '\n', ' ');
    trim_str(t3.as_str())
}

/// The cell a named column shows for a pull request; unknown columns
/// are empty.
pub open spec fn pr_column_spec(col: Seq<char>, pr: Pr) -> Seq<char> {
    if col == seq!['i', 'd'] {
        dec_str(pr.id as int)
    } else if col == seq!['t', 'i', 't', 'l', 'e'] {
        escape_tsv_spec(pr.title@)
    } else if col == seq!['s', 't', 'a', 't', 'e'] {
        pr.state@
    } else if col == seq!['l', 'a', 'b', 'e', 'l', 's'] {
        escape_tsv_spec(join_char(pr.labels.deep_view(), ','))
    } else if col == seq!['a', 'u', 't', 'h', 'o', 'r'] {
        escape_tsv_spec(pr.author@)
    } else if col == seq!['c', 'r', 'e', 'a', 't', 'e', 'd'] {
        pr.created_at@
    } else if col == seq!['u', 'p', 'd', 'a', 't', 'e', 'd'] {
        pr.updated_at@
    } else if col == seq!['u', 'r', 'l'] {
        pr.url@
    } else if col == seq!['s', 'o', 'u', 'r', 'c', 'e'] {
        pr.source_branch@
    } else if col == seq!['t', 'a', 'r', 'g', 'e', 't'] {
        pr.target_branch@
    } else if col == seq!['d', 'r', 'a', 'f', 't'] {
        if pr.draft {
            seq!['t', 'r', 'u', 'e']
        } else {
            seq!['f', 'a', 'l', 's', 'e']
        }
    } else {
        seq![]
    }
}

/// The cell a named column shows for a pull request.
pub fn get_column_value_for_pr(column: &str, pr: &Pr) -> (r: String)
    ensures
        r@ == pr_column_spec(column@, *pr),
{
    proof {
        reveal_strlit("id");
        assert(("id")@ =~= seq!['i', 'd']);
        reveal_strlit("title");
        assert(("title")@ =~= seq!['t', 'i', 't', 'l', 'e']);
        reveal_strlit("state");
        assert(("state")@ =~= seq!['s', 't', 'a', 't', 'e']);
        reveal_strlit("labels");
        assert(("labels")@ =~= seq!['l', 'a', 'b', 'e', 'l', 's']);
        reveal_strlit("author");
        assert(("author")@ =~= seq!['a', 'u', 't', 'h', 'o', 'r']);
        reveal_strlit("created");
        assert(("created")@ =~= seq!['c', 'r', 'e', 'a', 't', 'e', 'd']);
        reveal_strlit("updated");
        assert(("updated")@ =~= seq!['u', 'p', 'd', 'a', 't', 'e', 'd']);
        reveal_strlit("url");
        assert(("url")@ =~= seq!['u', 'r', 'l']);
        reveal_strlit("source");
        assert(("source")@ =~= seq!['s', 'o', 'u', 'r', 'c', 'e']);
        reveal_strlit("target");
        assert(("target")@ =~= seq!['t', 'a', 'r', 'g', 'e', 't']);
        reveal_strlit("draft");
        assert(("draft")@ =~= seq!['d', 'r', 'a', 'f', 't']);
        reveal_strlit("true");
        assert(("true")@ =~= seq!['t', 'r', 'u', 'e']);
        reveal_strlit("false");
        assert(("false")@ =~= seq!['f', 'a', 'l', 's', 'e']);
    }
    if str_eq(column, "id") {
        u32_to_string(pr.id)
    } else if str_eq(column, "title") {
        escape_tsv(pr.title.as_str())
    } else if str_eq(column, "state") {
        pr.state.clone()
    } else if str_eq(column, "labels") {
        let joined = join_strings(&pr.labels, ',');
        escape_tsv(joined.as_str())
    } else if str_eq(column, "author") {
        escape_tsv(pr.author.as_str())
    } else if str_eq(column, "created") {
        pr.created_at.clone()
    } else if str_eq(column, "updated") {
        pr.updated_at.clone()
    } else if str_eq(column, "url") {
        pr.url.clone()
    } else if str_eq(column, "source") {
        pr.source_branch.clone()
    } else if str_eq(column, "target") {
        pr.target_branch.clone()
    } else if str_eq(column, "draft") {
        if pr.draft {
            ("true").to_owned()
        } else {
            ("false").to_owned()
        }
    } else {
        String::new()
    }
}

/// One TSV row: the chosen columns of a pull request, tab-separated.
pub open spec fn pr_row_spec(pr: Pr, cols: Seq<Seq<char>>) -> Seq<char> {
    join_char(cols.map_values(|c: Seq<char>| pr_column_spec(c, pr)), '\t')
}

/// The whole TSV: one row per pull request, newline-separated.
pub open spec fn prs_tsv_spec(prs: Seq<Pr>, cols: Seq<Seq<char>>) -> Seq<char> {
    join_char(prs.map_values(|p: Pr| pr_row_spec(p, cols)), '\n')
}

/// The columns shown when none are chosen.
pub open spec fn default_pr_columns() -> Seq<Seq<char>> {
    seq![seq!['i', 'd'], seq!['t', 'i', 't', 'l', 'e'], seq!['u', 'r', 'l']]
}

/// Renders pull requests as TSV, with the chosen columns or the default
/// id, title and url.
pub fn format_prs_to_tsv(prs: &Vec<Pr>, columns: Option<Vec<String>>) -> (r: String)
    ensures
        ({
            let cols = match columns {
                Some(c) => c.deep_view(),
                None => default_pr_columns(),
            };
            r@ == prs_tsv_spec(prs@, cols)
        }),
{
    let cols: Vec<String> = match columns {
        Some(c) => c,
        None => {
            proof {
                reveal_strlit("id");
                assert(("id")@ =~= seq!['i', 'd']);
                reveal_strlit("title");
                assert(("title")@ =~= seq!['t', 'i', 't', 'l', 'e']);
                reveal_strlit("url");
                assert(("url")@ =~= seq!['u', 'r', 'l']);
            }
            let mut c: Vec<String> = Vec::new();
            c.push(("id").to_owned());
            c.push(("title").to_owned());
            c.push(("url").to_owned());
            proof {
                assert(c.deep_view() =~~= default_pr_columns());
            }
            c
        },
    };
    let ghost cv = cols.deep_view();
    let mut rows: Vec<String> = Vec::new();
    let mut i: usize = 0;
    while i < prs.len()
        invariant
            cv == cols.deep_view(),
            0 <= i <= prs@.len(),
            rows@.len() == i,
            forall|m: int| 0 <= m < i ==> #[trigger] rows@[m]@ == pr_row_spec(prs@[m], cv),
        decreases prs@.len() - i,
    {
        let pr = &prs[i];
        let mut cells: Vec<String> = Vec::new();
        let mut j: usize = 0;
        while j < cols.len()
            invariant
                cv == cols.deep_view(),
                cols@.len() == cv.len(),
                0 <= j <= cv.len(),
                cells@.len() == j,
                forall|m: int|
                    0 <= m < j ==> #[trigger] cells@[m]@ == pr_column_spec(cv[m], *pr),
            decreases cv.len() - j,
        {
            cells.push(get_column_value_for_pr(cols[j].as_str(), pr));
            j = j + 1;
        }
        proof {
            assert(cells.deep_view() =~~= cv.map_values(|c: Seq<char>| pr_column_spec(c, *pr)));
        }
        let row = join_strings(&cells, '\t');
        rows.push(row);
        i = i + 1;
    }
    proof {
        assert(rows.deep_view() =~~= prs@.map_values(|p: Pr| pr_row_spec(p, cv)));
    }
    join_strings(&rows, '\n')
}

/// The local branch a pull request is checked out to: `pr-<number>`.
pub fn pr_branch_name(pr_number: u32) -> (r: String)
    ensures
        r@ == seq!['p', 'r', '-'] + dec_str(pr_number as int),
{
    proof {
        reveal_strlit("pr-");
        assert(("pr-")@ =~= seq!['p', 'r', '-']);
    }
    let mut r = String::new();
    r.append("pr-");
    let digits = u32_to_string(pr_number);
    r.append(digits.as_str());
    proof {
        assert(r@ =~= seq!['p', 'r', '-'] + dec_str(pr_number as int));
    }
    r
}

/// Command-line arguments for the `pr` subcommand.
pub struct PrCommandArgs {
    pub subcommand: PrCommand,
}

/// Available subcommands for pull request operations.
pub enum PrCommand {
    /// Checkout a pull request locally.
    Checkout(PrCheckoutCommandArgs),
    /// Create a new pull request from the current branch.
    Create(PrCreateCommandArgs),
    /// List pull requests as TSV.
    List(PrListCommandArgs),
}

/// Command-line arguments for checking out a pull request.
pub struct PrCheckoutCommandArgs {
    /// Forge type override; detected from the host when absent.
    pub api: Option<ApiType>,
    /// Explicit API base URL instead of auto-detection.
    pub api_url: Option<String>,
    /// PR number to checkout.
    pub number: u32,
    /// Git remote to use.
    pub remote: String,
}

/// Command-line arguments for creating a new pull request.
pub struct PrCreateCommandArgs {
    /// Forge type override; detected from the host when absent.
    pub api: Option<ApiType>,
    /// Explicit API base URL instead of auto-detection.
    pub api_url: Option<String>,
    /// PR description.
    pub body: Option<String>,
    /// Create as draft PR.
    pub draft: bool,
    /// Push the branch to the remote first.
    pub push: bool,
    /// Git remote to use.
    pub remote: String,
    /// Target branch; the remote's default branch when absent.
    pub target: Option<String>,
    /// PR title; the branch name when absent.
    pub title: Option<String>,
}

/// Command-line arguments for listing pull requests.
pub struct PrListCommandArgs {
    /// Forge type override; detected from the host when absent.
    pub api: Option<ApiType>,
    /// Explicit API base URL instead of auto-detection.
    pub api_url: Option<String>,
    /// Use authentication from the environment.
    pub auth: bool,
    /// Filter by author username.
    pub author: Option<String>,
    /// Columns to include in the TSV output.
    pub columns: Vec<String>,
    /// Filter to only draft PRs.
    pub draft: bool,
    /// Filter by labels; every named label must be present.
    pub labels: Vec<String>,
    /// Page number to fetch.
    pub page: u32,
    /// Number of PRs per page.
    pub per_page: u32,
    /// Git remote to use.
    pub remote: String,
    /// Filter by state.
    pub state: Option<PrState>,
}

} // verus!
