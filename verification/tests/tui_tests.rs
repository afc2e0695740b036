//! The query parser and the interactive selection controller.

use git_forge::controller::{App, Focus, KeyCode, KeyEvent, Mode, UserAction};
use git_forge::fetch::{FetchCommand, FetchResult};
use git_forge::issue::{Issue, IssueState};
use git_forge::options::parse_fetch_options;

fn key(code: KeyCode) -> KeyEvent {
    KeyEvent {
        code,
        ctrl: false,
        alt: false,
        press: true,
    }
}

fn make_issue(id: u32) -> Issue {
    Issue {
        id,
        title: format!("issue {}", id),
        state: IssueState::Open,
        author: "alice".to_string(),
        url: format!("https://github.com/user/repo/issues/{}", id),
        labels: vec![],
    }
}

fn issues(from: u32, count: u32) -> Vec<Issue> {
    (from..from + count).map(make_issue).collect()
}

fn respond(cmd: &FetchCommand, items: Vec<Issue>, more: bool) -> FetchResult<Issue> {
    FetchResult::new()
        .with_page(cmd.page)
        .with_append_items(cmd.append)
        .with_items(items)
        .with_more_items(more)
}

fn type_str(app: &mut App<Issue>, s: &str) {
    for c in s.chars() {
        app.handle_key_event(key(KeyCode::Char(c)));
    }
}

// ---- query parser ----

#[test]
fn test_parse_fetch_options_basic() {
    let opts = parse_fetch_options("bug @author=alice");
    assert_eq!(opts.parse_str("query"), Some("bug"));
    assert_eq!(opts.parse_str("author"), Some("alice"));
    assert_eq!(opts.len(), 2);
}

#[test]
fn test_parse_fetch_options_last_duplicate_wins() {
    let opts = parse_fetch_options("@state=open words @state=closed more");
    assert_eq!(opts.parse_str("state"), Some("closed"));
    assert_eq!(opts.parse_str("query"), Some("words more"));
}

#[test]
fn test_parse_fetch_options_free_words_keep_order() {
    let opts = parse_fetch_options("  alpha \t beta\n gamma  ");
    assert_eq!(opts.parse_str("query"), Some("alpha beta gamma"));
    assert_eq!(opts.len(), 1);
}

#[test]
fn test_parse_fetch_options_empty_and_odd_tokens() {
    let opts = parse_fetch_options("");
    assert!(opts.is_empty());

    // no '=' after '@': the token is a free word
    let opts = parse_fetch_options("@labels");
    assert_eq!(opts.parse_str("query"), Some("@labels"));

    // empty key and empty value are kept as written
    let opts = parse_fetch_options("@=v @k=");
    assert_eq!(opts.parse_str(""), Some("v"));
    assert_eq!(opts.parse_str("k"), Some(""));
}

#[test]
fn test_fetch_options_typed_parsers() {
    let opts = parse_fetch_options("@per-page=30 @labels=a,b,c");
    assert_eq!(opts.parse::<u32>("per-page"), Some(30));
    assert_eq!(opts.parse::<u32>("labels"), None);
    let labels: Vec<String> = opts.parse_list("labels").unwrap();
    assert_eq!(labels, vec!["a", "b", "c"]);
    assert!(opts.parse_list::<u32>("missing").is_none());
}

// ---- controller scenarios ----

#[test]
fn test_initial_fetch_selects_first_item() {
    let mut app: App<Issue> = App::new();
    let cmd = app.tick_lookahead().expect("initial fetch should start");
    assert_eq!(cmd.page, 1);
    assert!(app.is_fetching());

    // no second fetch while one is in flight
    assert!(app.tick_lookahead().is_none());

    let merged = app.apply_success(cmd.ticket, respond(&cmd, issues(1, 30), true));
    assert!(merged);
    assert_eq!(app.items().len(), 30);
    assert_eq!(app.selected_index(), Some(0));
    assert!(!app.is_fetching());
}

#[test]
fn test_lookahead_appends_next_page() {
    let mut app: App<Issue> = App::new();
    let cmd = app.tick_lookahead().unwrap();
    app.apply_success(cmd.ticket, respond(&cmd, issues(1, 30), true));

    // move the highlight down to the third item from the end
    for _ in 0..26 {
        app.handle_key_event(key(KeyCode::Down));
    }
    assert_eq!(app.selected_index(), Some(26));

    let cmd2 = app.tick_lookahead().expect("lookahead fetch should start");
    assert_eq!(cmd2.page, 2);
    assert!(cmd2.append);
    // exactly one: the slot is occupied now
    assert!(app.tick_lookahead().is_none());

    let merged = app.apply_success(cmd2.ticket, respond(&cmd2, issues(31, 10), false));
    assert!(merged);
    assert_eq!(app.items().len(), 40);
    assert_eq!(app.selected_index(), Some(26));

    // with has_more false, even the last item triggers nothing
    for _ in 0..40 {
        app.handle_key_event(key(KeyCode::Down));
    }
    assert_eq!(app.selected_index(), Some(39));
    assert!(app.tick_lookahead().is_none());
}

#[test]
fn test_submit_search_schedules_replace() {
    let mut app: App<Issue> = App::new();
    let cmd = app.tick_lookahead().unwrap();
    app.apply_success(cmd.ticket, respond(&cmd, issues(1, 30), true));

    // typing a character moves focus to the search bar
    type_str(&mut app, "bug @author=alice");
    assert_eq!(app.mode(), Mode::Normal(Focus::SearchBar));
    assert_eq!(app.search().current_query(), "bug @author=alice");

    let (action, fetch) = app.handle_key_event(key(KeyCode::Enter));
    assert_eq!(action, UserAction::NoOp);
    let cmd2 = fetch.expect("Enter schedules a replacing fetch");
    assert_eq!(cmd2.page, 1);
    assert!(!cmd2.append);
    assert_eq!(cmd2.options.parse_str("query"), Some("bug"));
    assert_eq!(cmd2.options.parse_str("author"), Some("alice"));

    // pagination is reset until the new page 1 arrives
    assert_eq!(app.current_page(), 0);
    assert!(app.has_next_page());
    assert_eq!(app.mode(), Mode::Normal(Focus::List));
    assert_eq!(app.search().current_query(), "");
    assert_eq!(app.search().history_len(), 1);
    assert_eq!(app.search().history_entry(0).unwrap(), "bug @author=alice");
}

#[test]
fn test_stale_result_is_discarded() {
    let mut app: App<Issue> = App::new();
    let cmd_a = app.tick_lookahead().unwrap();

    // a new search supersedes the fetch before its result arrives
    type_str(&mut app, "x");
    let (_, fetch) = app.handle_key_event(key(KeyCode::Enter));
    let cmd_b = fetch.unwrap();

    // A's late result must change nothing
    let merged = app.apply_success(cmd_a.ticket, respond(&cmd_a, issues(1, 5), true));
    assert!(!merged);
    assert_eq!(app.items().len(), 0);
    assert!(app.is_fetching());

    // B's result is the one that lands
    let merged = app.apply_success(cmd_b.ticket, respond(&cmd_b, issues(100, 3), false));
    assert!(merged);
    assert_eq!(app.items().len(), 3);
    assert_eq!(app.items()[0].id, 100);
    assert!(!app.has_next_page());

    // stale failures are equally invisible
    assert!(!app.apply_failure(cmd_a.ticket));
    assert_eq!(app.items().len(), 3);
}

#[test]
fn test_current_failure_is_fatal() {
    let mut app: App<Issue> = App::new();
    let cmd = app.tick_lookahead().unwrap();
    assert!(app.apply_failure(cmd.ticket));
    assert!(!app.is_fetching());
}

#[test]
fn test_history_navigation_in_search_bar() {
    let mut app: App<Issue> = App::new();
    type_str(&mut app, "bug");
    app.handle_key_event(key(KeyCode::Enter));
    app.handle_key_event(key(KeyCode::Tab));
    type_str(&mut app, "fix");
    app.handle_key_event(key(KeyCode::Enter));

    // focus the search bar again, empty and not browsing
    app.handle_key_event(key(KeyCode::Tab));
    assert_eq!(app.mode(), Mode::Normal(Focus::SearchBar));
    assert_eq!(app.search().current_query(), "");

    app.handle_key_event(key(KeyCode::Up));
    assert_eq!(app.search().current_query(), "fix");
    app.handle_key_event(key(KeyCode::Up));
    assert_eq!(app.search().current_query(), "bug");
    app.handle_key_event(key(KeyCode::Down));
    assert_eq!(app.search().current_query(), "fix");
    app.handle_key_event(key(KeyCode::Down));
    assert_eq!(app.search().current_query(), "");
}

#[test]
fn test_mode_transitions_and_quit() {
    let mut app: App<Issue> = App::new();
    assert_eq!(app.mode(), Mode::Normal(Focus::List));

    // help from the list, any key returns
    app.handle_key_event(key(KeyCode::Char('?')));
    assert_eq!(app.mode(), Mode::Help(Focus::List));
    app.handle_key_event(key(KeyCode::Char('x')));
    assert_eq!(app.mode(), Mode::Normal(Focus::List));

    // Tab switches focus back and forth
    app.handle_key_event(key(KeyCode::Tab));
    assert_eq!(app.mode(), Mode::Normal(Focus::SearchBar));
    app.handle_key_event(key(KeyCode::BackTab));
    assert_eq!(app.mode(), Mode::Normal(Focus::List));

    // Esc in the list quits
    let (action, _) = app.handle_key_event(key(KeyCode::Esc));
    assert_eq!(action, UserAction::Quit);

    // Esc in a non-empty search bar only clears
    type_str(&mut app, "abc");
    let (action, _) = app.handle_key_event(key(KeyCode::Esc));
    assert_eq!(action, UserAction::NoOp);
    assert_eq!(app.search().current_query(), "");
    let (action, _) = app.handle_key_event(key(KeyCode::Esc));
    assert_eq!(action, UserAction::Quit);

    // Ctrl+C quits anywhere
    let ctrl_c = KeyEvent {
        code: KeyCode::Char('c'),
        ctrl: true,
        alt: false,
        press: true,
    };
    let (action, _) = app.handle_key_event(ctrl_c);
    assert_eq!(action, UserAction::Quit);

    // releases are ignored
    let released = KeyEvent {
        code: KeyCode::Esc,
        ctrl: false,
        alt: false,
        press: false,
    };
    let (action, _) = app.handle_key_event(released);
    assert_eq!(action, UserAction::NoOp);
}

#[test]
fn test_enter_selects_highlighted_item() {
    let mut app: App<Issue> = App::new();
    let cmd = app.tick_lookahead().unwrap();
    app.apply_success(cmd.ticket, respond(&cmd, issues(1, 3), false));

    app.handle_key_event(key(KeyCode::Down));
    let (action, _) = app.handle_key_event(key(KeyCode::Enter));
    assert_eq!(action, UserAction::Select(1));

    let item = app.into_item(1).unwrap();
    assert_eq!(item.id, 2);
}

#[test]
fn test_page_scrolling_uses_viewport() {
    let mut app: App<Issue> = App::new();
    let cmd = app.tick_lookahead().unwrap();
    app.apply_success(cmd.ticket, respond(&cmd, issues(1, 30), false));
    app.set_viewport_rows(11);

    app.handle_key_event(key(KeyCode::PageDown));
    assert_eq!(app.selected_index(), Some(10));
    app.handle_key_event(key(KeyCode::PageDown));
    assert_eq!(app.selected_index(), Some(20));
    app.handle_key_event(key(KeyCode::PageDown));
    assert_eq!(app.selected_index(), Some(29));
    app.handle_key_event(key(KeyCode::PageUp));
    assert_eq!(app.selected_index(), Some(19));
    app.handle_key_event(key(KeyCode::Up));
    assert_eq!(app.selected_index(), Some(18));
}

#[test]
fn test_search_bar_editing_keys() {
    let mut app: App<Issue> = App::new();
    type_str(&mut app, "one two");

    let alt_backspace = KeyEvent {
        code: KeyCode::Backspace,
        ctrl: false,
        alt: true,
        press: true,
    };
    app.handle_key_event(alt_backspace);
    assert_eq!(app.search().current_query(), "one ");

    let ctrl = |c: char| KeyEvent {
        code: KeyCode::Char(c),
        ctrl: true,
        alt: false,
        press: true,
    };
    app.handle_key_event(ctrl('a'));
    assert_eq!(app.search().cursor_position(), 0);
    app.handle_key_event(key(KeyCode::Delete));
    assert_eq!(app.search().current_query(), "ne ");
    app.handle_key_event(ctrl('e'));
    assert_eq!(app.search().cursor_position(), 3);
    app.handle_key_event(ctrl('l'));
    assert_eq!(app.search().current_query(), "");

    // '?' opens help only from an empty search bar
    type_str(&mut app, "x");
    app.handle_key_event(key(KeyCode::Char('?')));
    assert_eq!(app.mode(), Mode::Normal(Focus::SearchBar));
    assert_eq!(app.search().current_query(), "x?");
    app.handle_key_event(ctrl('l'));
    app.handle_key_event(key(KeyCode::Char('?')));
    assert_eq!(app.mode(), Mode::Help(Focus::SearchBar));
    // leaving help restores the remembered focus
    app.handle_key_event(key(KeyCode::Up));
    assert_eq!(app.mode(), Mode::Normal(Focus::SearchBar));
}

#[test]
fn test_typing_leaves_history_browsing() {
    let mut app: App<Issue> = App::new();
    type_str(&mut app, "bug");
    app.handle_key_event(key(KeyCode::Enter));
    app.handle_key_event(key(KeyCode::Tab));

    app.handle_key_event(key(KeyCode::Up));
    assert_eq!(app.search().current_query(), "bug");
    // typing edits the recalled text as a fresh query
    type_str(&mut app, "s");
    assert_eq!(app.search().current_query(), "bugs");
    // Down no longer navigates history: browsing ended on the insert
    app.handle_key_event(key(KeyCode::Down));
    assert_eq!(app.search().current_query(), "bugs");
}

#[test]
fn test_no_lookahead_while_editing_search() {
    let mut app: App<Issue> = App::new();
    let cmd = app.tick_lookahead().unwrap();
    app.apply_success(cmd.ticket, respond(&cmd, issues(1, 2), true));

    // two items with more available would trigger a lookahead, but not
    // while the user is mid-edit in the search bar
    app.handle_key_event(key(KeyCode::Tab));
    assert!(app.tick_lookahead().is_none());
    app.handle_key_event(key(KeyCode::Tab));
    assert!(app.tick_lookahead().is_some());
}
