//! Issues: the domain type and the `issue` subcommand's argument types.

use vstd::prelude::*;
use vstd::string::*;
use crate::config::ConfigValueEnum;
use crate::controller::ListableItem;
use crate::forge::ApiType;
use crate::io::OutputFormat;
use crate::text::{push_char, str_eq_ignore_ascii_case, str_ieq_spec, u32_to_string};

verus! {

/// Issue state filter.
#[derive(Clone, Copy, Debug, PartialEq)]
pub enum IssueState {
    /// Open issues that haven't been closed yet.
    Open,
    /// Closed issues that have been resolved.
    Closed,
    /// All issues regardless of state.
    All,
}

impl ConfigValueEnum for IssueState {
    open spec fn from_name_spec(s: Seq<char>) -> Option<IssueState> {
        if str_ieq_spec(s, seq!['o', 'p', 'e', 'n']) {
            Some(IssueState::Open)
        } else if str_ieq_spec(s, seq!['c', 'l', 'o', 's', 'e', 'd']) {
            Some(IssueState::Closed)
        } else if str_ieq_spec(s, seq!['a', 'l', 'l']) {
            Some(IssueState::All)
        } else {
            None
        }
    }

    fn from_config_name(s: &str) -> (r: Option<IssueState>) {
        proof {
            reveal_strlit("open");
            assert(("open")@ =~= seq!['o', 'p', 'e', 'n']);
            reveal_strlit("closed");
            assert(("closed")@ =~= seq!['c', 'l', 'o', 's', 'e', 'd']);
            reveal_strlit("all");
            assert(("all")@ =~= seq!['a', 'l', 'l']);
        }
        if str_eq_ignore_ascii_case(s, "open") {
            Some(IssueState::Open)
        } else if str_eq_ignore_ascii_case(s, "closed") {
            Some(IssueState::Closed)
        } else if str_eq_ignore_ascii_case(s, "all") {
            Some(IssueState::All)
        } else {
            None
        }
    }
}

impl IssueState {
    /// The lowercase name of the state, as used in queries and output.
    pub fn name(&self) -> (r: String)
        ensures
            r@ == match *self {
                IssueState::Open => seq!['o', 'p', 'e', 'n'],
                IssueState::Closed => seq!['c', 'l', 'o', 's', 'e', 'd'],
                IssueState::All => seq!['a', 'l', 'l'],
            },
    {
        proof {
            reveal_strlit("open");
            assert(("open")@ =~= seq!['o', 'p', 'e', 'n']);
            reveal_strlit("closed");
            assert(("closed")@ =~= seq!['c', 'l', 'o', 's', 'e', 'd']);
            reveal_strlit("all");
            assert(("all")@ =~= seq!['a', 'l', 'l']);
        }
        match *self {
            IssueState::Open => ("open").to_owned(),
            IssueState::Closed => ("closed").to_owned(),
            IssueState::All => ("all").to_owned(),
        }
    }
}

/// A field of an issue, for choosing output columns.
#[derive(Clone, Copy, Debug, PartialEq)]
pub enum IssueField {
    Id,
    Title,
    State,
    Labels,
    Author,
    Url,
}

impl ConfigValueEnum for IssueField {
    open spec fn from_name_spec(s: Seq<char>) -> Option<IssueField> {
        if str_ieq_spec(s, seq!['i', 'd']) {
            Some(IssueField::Id)
        } else if str_ieq_spec(s, seq!['t', 'i', 't', 'l', 'e']) {
            Some(IssueField::Title)
        } else if str_ieq_spec(s, seq!['s', 't', 'a', 't', 'e']) {
            Some(IssueField::State)
        } else if str_ieq_spec(s, seq!['l', 'a', 'b', 'e', 'l', 's']) {
            Some(IssueField::Labels)
        } else if str_ieq_spec(s, seq!['a', 'u', 't', 'h', 'o', 'r']) {
            Some(IssueField::Author)
        } else if str_ieq_spec(s, seq!['u', 'r', 'l']) {
            Some(IssueField::Url)
        } else {
            None
        }
    }

    fn from_config_name(s: &str) -> (r: Option<IssueField>) {
        proof {
            reveal_strlit("id");
            assert(("id")@ =~= seq!['i', 'd']);
            reveal_strlit("title");
            assert(("title")@ =~= seq!['t', 'i', 't', 'l', 'e']);
            reveal_strlit("state");
            assert(("state")@ =~= seq!['s', 't', 'a', 't', 'e']);
            reveal_strlit("labels");
            assert(("labels")@ =~= seq!['l', 'a', 'b', 'e', 'l', 's']);
            reveal_strlit("author");
            assert(("author")@ =~= seq!['a', 'u', 't', 'h', 'o', 'r']);
            reveal_strlit("url");
            assert(("url")@ =~= seq!['u', 'r', 'l']);
        }
        if str_eq_ignore_ascii_case(s, "id") {
            Some(IssueField::Id)
        } else if str_eq_ignore_ascii_case(s, "title") {
            Some(IssueField::Title)
        } else if str_eq_ignore_ascii_case(s, "state") {
            Some(IssueField::State)
        } else if str_eq_ignore_ascii_case(s, "labels") {
            Some(IssueField::Labels)
        } else if str_eq_ignore_ascii_case(s, "author") {
            Some(IssueField::Author)
        } else if str_eq_ignore_ascii_case(s, "url") {
            Some(IssueField::Url)
        } else {
            None
        }
    }
}

/// An issue from a git forge.
#[derive(Clone)]
pub struct Issue {
    /// The issue number (e.g. #42).
    pub id: u32,
    /// The issue title.
    pub title: String,
    /// The current state.
    pub state: IssueState,
    /// The username of the issue author.
    pub author: String,
    /// The web URL to view this issue.
    pub url: String,
    /// Labels attached to this issue.
    pub labels: Vec<String>,
}

impl ListableItem for Issue {
    /// `<id>: <title>`, the line the selection list shows.
    fn get_display_text(&self) -> String {
        let mut r = u32_to_string(self.id);
        push_char(&mut r, ':');
        push_char(&mut r, ' ');
        r.append(self.title.as_str());
        r
    }
}

/// Filters for listing issues.
pub struct ListIssueFilters<'a> {
    pub assignee: Option<&'a str>,
    pub author: Option<&'a str>,
    pub labels: &'a [String],
    pub page: u32,
    pub per_page: u32,
    pub query: Option<&'a str>,
    pub state: &'a IssueState,
}

/// Contents of a new issue.
pub struct CreateIssueOptions<'a> {
    pub title: &'a str,
    pub body: &'a str,
}

/// Command-line arguments for the `issue` subcommand.
pub struct IssueCommandArgs {
    pub subcommand: IssueCommand,
}

/// Available subcommands for the issue subcommand.
pub enum IssueCommand {
    /// List issues.
    List(IssueListCommandArgs),
    /// Create an issue and open it in the web browser.
    Create(IssueCreateCommandArgs),
}

/// Command-line arguments for listing issues.
pub struct IssueListCommandArgs {
    /// Forge type override; detected from the host when absent.
    pub api: Option<ApiType>,
    /// Explicit API base URL instead of auto-detection.
    pub api_url: Option<String>,
    /// Use authentication from the environment.
    pub auth: bool,
    /// Filter by assignee.
    pub assignee: Option<String>,
    /// Filter by author.
    pub author: Option<String>,
    /// Fields to include in the output.
    pub fields: Vec<IssueField>,
    /// Output format.
    pub format: Option<OutputFormat>,
    /// Use the interactive selection UI.
    pub interactive: bool,
    /// Filter by labels.
    pub labels: Vec<String>,
    /// Page number to fetch.
    pub page: u32,
    /// Number of issues per page.
    pub per_page: Option<u32>,
    /// Search keywords.
    pub query: Option<String>,
    /// Git remote to use.
    pub remote: Option<String>,
    /// Filter by state.
    pub state: Option<IssueState>,
    /// Open the issues page in the web browser instead.
    pub web: bool,
}

/// Command-line arguments for creating an issue.
pub struct IssueCreateCommandArgs {
    /// Forge type override; detected from the host when absent.
    pub api: Option<ApiType>,
    /// Explicit API base URL instead of auto-detection.
    pub api_url: Option<String>,
    /// Issue description.
    pub body: Option<String>,
    /// Open a text editor to write the issue message.
    pub editor: bool,
    /// Don't open the issue in the browser after creation.
    pub no_browser: bool,
    /// Git remote to use.
    pub remote: Option<String>,
    /// Issue title.
    pub title: Option<String>,
    /// Create the issue in the web browser instead.
    pub web: bool,
}

} // verus!
