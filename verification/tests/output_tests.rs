//! TSV output for pull requests, client-side PR filtering, and editor
//! message parsing.

use git_forge::io::{parse_message, MessageError, CUT_MARKER};
use git_forge::pr::{
    escape_tsv, filter_prs, format_prs_to_tsv, get_column_value_for_pr, pr_branch_name, Pr,
    PrState,
};

fn make_pr(id: u32, title: &str, state: &str, author: &str, labels: Vec<&str>, draft: bool) -> Pr {
    Pr {
        id,
        title: title.to_string(),
        state: state.to_string(),
        author: author.to_string(),
        url: format!("https://example.com/pr/{}", id),
        labels: labels.into_iter().map(|l| l.to_string()).collect(),
        created_at: "2024-01-01".to_string(),
        updated_at: "2024-01-02".to_string(),
        source_branch: "feature".to_string(),
        target_branch: "main".to_string(),
        draft,
    }
}

#[test]
fn test_escape_tsv() {
    assert_eq!(escape_tsv("a\tb"), "a b");
    assert_eq!(escape_tsv("a\r\nb"), "a b");
    assert_eq!(escape_tsv("a\nb"), "a b");
    assert_eq!(escape_tsv("  padded  "), "padded");
    assert_eq!(escape_tsv("plain"), "plain");
}

#[test]
fn test_get_column_value_for_pr() {
    let pr = make_pr(7, "Fix\tthe bug", "open", "alice", vec!["a", "b"], true);

    assert_eq!(get_column_value_for_pr("id", &pr), "7");
    assert_eq!(get_column_value_for_pr("title", &pr), "Fix the bug");
    assert_eq!(get_column_value_for_pr("state", &pr), "open");
    assert_eq!(get_column_value_for_pr("labels", &pr), "a,b");
    assert_eq!(get_column_value_for_pr("author", &pr), "alice");
    assert_eq!(get_column_value_for_pr("created", &pr), "2024-01-01");
    assert_eq!(get_column_value_for_pr("updated", &pr), "2024-01-02");
    assert_eq!(get_column_value_for_pr("url", &pr), "https://example.com/pr/7");
    assert_eq!(get_column_value_for_pr("source", &pr), "feature");
    assert_eq!(get_column_value_for_pr("target", &pr), "main");
    assert_eq!(get_column_value_for_pr("draft", &pr), "true");
    assert_eq!(get_column_value_for_pr("unknown", &pr), "");
}

#[test]
fn test_format_prs_to_tsv() {
    let prs = vec![
        make_pr(1, "First", "open", "alice", vec![], false),
        make_pr(2, "Second", "merged", "bob", vec![], false),
    ];

    let default_output = format_prs_to_tsv(&prs, None);
    assert_eq!(
        default_output,
        "1\tFirst\thttps://example.com/pr/1\n2\tSecond\thttps://example.com/pr/2"
    );

    let columns = vec!["id".to_string(), "state".to_string()];
    let output = format_prs_to_tsv(&prs, Some(columns));
    assert_eq!(output, "1\topen\n2\tmerged");

    assert_eq!(format_prs_to_tsv(&vec![], None), "");
}

#[test]
fn test_filter_prs() {
    let prs = vec![
        make_pr(1, "a", "open", "alice", vec!["x"], false),
        make_pr(2, "b", "merged", "bob", vec!["x", "y"], false),
        make_pr(3, "c", "closed", "alice", vec![], true),
    ];

    let merged = filter_prs(prs.clone(), PrState::Merged, None, &vec![], false);
    assert_eq!(merged.len(), 1);
    assert_eq!(merged[0].id, 2);

    // "closed" keeps whatever the API returned that was not merged
    let closed = filter_prs(prs.clone(), PrState::Closed, None, &vec![], false);
    assert_eq!(closed.len(), 2);

    let by_alice = filter_prs(prs.clone(), PrState::All, Some(&"alice".to_string()), &vec![], false);
    assert_eq!(by_alice.len(), 2);
    assert_eq!(by_alice[0].id, 1);
    assert_eq!(by_alice[1].id, 3);

    let with_labels = filter_prs(prs.clone(), PrState::All, None, &vec!["x".to_string(), "y".to_string()], false);
    assert_eq!(with_labels.len(), 1);
    assert_eq!(with_labels[0].id, 2);

    let drafts = filter_prs(prs.clone(), PrState::All, None, &vec![], true);
    assert_eq!(drafts.len(), 1);
    assert_eq!(drafts[0].id, 3);
}

#[test]
fn test_pr_branch_name() {
    assert_eq!(pr_branch_name(42), "pr-42");
    assert_eq!(pr_branch_name(0), "pr-0");
}

#[test]
fn test_parse_message() {
    let content = format!(
        "My title\n\nFirst paragraph.\n\nSecond paragraph.\n\n{}\n# help text\n",
        CUT_MARKER
    );
    let msg = parse_message(&content).unwrap();
    assert_eq!(msg.title, "My title");
    assert_eq!(msg.body, "First paragraph.\n\nSecond paragraph.");
}

#[test]
fn test_parse_message_title_only() {
    let content = format!("Only a title{}", CUT_MARKER);
    let msg = parse_message(&content).unwrap();
    assert_eq!(msg.title, "Only a title");
    assert_eq!(msg.body, "");
}

#[test]
fn test_parse_message_missing_marker() {
    let result = parse_message("no marker here");
    assert_eq!(result.unwrap_err(), MessageError::MarkerMissing);
}
