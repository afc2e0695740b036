//! The selection controller: the state machine that routes key events by
//! mode and focus, drives the search editor, the item list and the fetch
//! scheduler, and decides when to ask for more data.
//!
//! The controller never performs I/O.  A surrounding event loop feeds it
//! key presses and viewport sizes, carries out the `FetchCommand`s it
//! hands back (spawning a worker that runs the fetch callback), and
//! delivers each outcome under its ticket; stale outcomes bounce off the
//! scheduler unobserved.

use vstd::prelude::*;
use crate::fetch::{FetchCommand, FetchResult, ItemFetcher};
use crate::list::ListState;
use crate::options::{fetch_options_spec, parse_fetch_options};
use crate::search::{
    delete_before_transition, history_after_save, word_boundary_back, word_boundary_fwd,
    skip_white_fwd, skip_word_fwd, SearchState,
};

verus! {

/// Items that can be displayed in the selection UI.
pub trait ListableItem: Sized + Clone {
    /// The display text for this item.
    fn get_display_text(&self) -> String;
}

/// Which widget receives key input.
#[derive(Clone, Copy, Debug, PartialEq, Eq)]
pub enum Focus {
    List,
    SearchBar,
}

/// Normal interaction, or the help overlay (which remembers the focus to
/// restore on exit).
#[derive(Clone, Copy, Debug, PartialEq, Eq)]
pub enum Mode {
    Normal(Focus),
    Help(Focus),
}

/// What the caller should do after a key event.
#[derive(Clone, Copy, Debug, PartialEq, Eq)]
pub enum UserAction {
    NoOp,
    Quit,
    Select(usize),
}

/// A key, as the controller understands it.
#[derive(Clone, Copy, Debug, PartialEq, Eq)]
pub enum KeyCode {
    Esc,
    Enter,
    Tab,
    BackTab,
    Up,
    Down,
    PageUp,
    PageDown,
    Left,
    Right,
    Home,
    End,
    Backspace,
    Delete,
    Char(char),
    Other,
}

/// A key event: the key, modifier flags, and whether it is a press
/// (repeats and releases are ignored).
#[derive(Clone, Copy, Debug, PartialEq, Eq)]
pub struct KeyEvent {
    pub code: KeyCode,
    pub ctrl: bool,
    pub alt: bool,
    pub press: bool,
}

/// Page tracking: the page reached so far (0 before anything is
/// fetched), the viewport height, and whether more data is known to
/// exist (optimistically true until a response says otherwise).
pub struct PaginationState {
    pub current_page: u32,
    pub per_page: u16,
    pub has_next_page: bool,
}

impl PaginationState {
    /// The state before any fetch: nothing fetched, more assumed.
    pub fn new() -> (r: PaginationState)
        ensures
            r.current_page == 0,
            r.per_page == 0,
            r.has_next_page == true,
    {
        PaginationState { current_page: 0, per_page: 0, has_next_page: true }
    }

    /// Forgets all fetched pages: the next fetch asks for page 1 and
    /// more data is assumed until a response arrives.
    pub fn reset(&mut self)
        ensures
            final(self).current_page == 0,
            final(self).has_next_page == true,
            final(self).per_page == old(self).per_page,
    {
        self.current_page = 0;
        self.has_next_page = true;
    }
}

/// A lookahead fetch starts when the highlight is within this many items
/// of the end of the loaded list.
pub const LOAD_THRESHOLD: usize = 4;

/// The selection controller.
pub struct App<T: ListableItem> {
    mode: Mode,
    item_fetcher: ItemFetcher,
    list: ListState<T>,
    pagination: PaginationState,
    search: SearchState,
}

impl<T: ListableItem> App<T> {
    pub closed spec fn mode_of(&self) -> Mode {
        self.mode
    }

    pub closed spec fn fetcher_of(&self) -> ItemFetcher {
        self.item_fetcher
    }

    pub closed spec fn list_of(&self) -> ListState<T> {
        self.list
    }

    pub closed spec fn pagination_of(&self) -> PaginationState {
        self.pagination
    }

    pub closed spec fn search_of(&self) -> SearchState {
        self.search
    }

    pub closed spec fn wf(&self) -> bool {
        &&& self.list.wf()
        &&& self.search.wf()
        &&& self.item_fetcher.wf()
    }

    /// Whether a lookahead fetch is due: not already fetching, more data
    /// known, the list focused in normal mode, and the highlight within
    /// `LOAD_THRESHOLD` of the end (or nothing loaded yet).
    pub open spec fn lookahead_due(&self) -> bool {
        &&& self.mode_of() == Mode::Normal(Focus::List)
        &&& (match self.list_of().selected_of() {
            Some(s) => self.list_of().items_view().len() - (s + 1) < LOAD_THRESHOLD,
            None => true,
        })
        &&& self.fetcher_of().in_flight() is None
        &&& self.pagination_of().has_next_page
        &&& self.pagination_of().current_page < u32::MAX
    }

    /// A fresh controller: normal mode with the list focused, nothing
    /// loaded, nothing fetching, an empty search editor.
    pub fn new() -> (r: App<T>)
        ensures
            r.wf(),
            r.mode_of() == Mode::Normal(Focus::List),
            r.fetcher_of().in_flight() is None,
            r.fetcher_of().issued() == 0,
            r.fetcher_of().options_map() == Map::<Seq<char>, Seq<char>>::empty(),
            r.list_of().items_view() == Seq::<T>::empty(),
            r.list_of().selected_of() is None,
            r.pagination_of().current_page == 0,
            r.pagination_of().has_next_page == true,
            r.search_of().text() == Seq::<char>::empty(),
            r.search_of().cursor_at() == 0,
            r.search_of().history_view() == Seq::<Seq<char>>::empty(),
    {
        App {
            mode: Mode::Normal(Focus::List),
            item_fetcher: ItemFetcher::new(),
            list: ListState::new(),
            pagination: PaginationState::new(),
            search: SearchState::new(),
        }
    }

    /// Records the viewport height, used for page-wise scrolling.
    pub fn set_viewport_rows(&mut self, rows: u16)
        requires
            old(self).wf(),
        ensures
            final(self).wf(),
            final(self).pagination_of().per_page == rows,
            final(self).pagination_of().current_page == old(self).pagination_of().current_page,
            final(self).pagination_of().has_next_page == old(self).pagination_of().has_next_page,
            final(self).mode_of() == old(self).mode_of(),
            final(self).fetcher_of() == old(self).fetcher_of(),
            final(self).list_of() == old(self).list_of(),
            final(self).search_of() == old(self).search_of(),
    {
        self.pagination.per_page = rows;
    }

    /// The current mode and focus.
    pub fn mode(&self) -> (r: Mode)
        ensures
            r == self.mode_of(),
    {
        self.mode
    }

    /// Whether a fetch is outstanding.
    pub fn is_fetching(&self) -> (r: bool)
        ensures
            r == (self.fetcher_of().in_flight() is Some),
    {
        self.item_fetcher.is_fetching()
    }

    /// Whether more data is known to exist.
    pub fn has_next_page(&self) -> (r: bool)
        ensures
            r == self.pagination_of().has_next_page,
    {
        self.pagination.has_next_page
    }

    /// The page reached so far; 0 before anything was fetched.
    pub fn current_page(&self) -> (r: u32)
        ensures
            r == self.pagination_of().current_page,
    {
        self.pagination.current_page
    }

    /// The loaded items, for rendering.
    pub fn items(&self) -> (r: &Vec<T>)
        ensures
            r@ == self.list_of().items_view(),
    {
        self.list.items()
    }

    /// The highlighted index, if any.
    pub fn selected_index(&self) -> (r: Option<usize>)
        ensures
            r == self.list_of().selected_of(),
    {
        self.list.selected_index()
    }

    /// The search editor, for rendering the query and cursor.
    pub fn search(&self) -> (r: &SearchState)
        ensures
            *r == self.search_of(),
    {
        &self.search
    }

    /// The options of the most recent fetch, for the status line.
    pub fn current_options(&self) -> (r: &crate::options::FetchOptions)
        ensures
            r.as_map() == self.fetcher_of().options_map(),
            self.wf() ==> r.wf(),
    {
        self.item_fetcher.current_options()
    }

    /// Consumes the controller, returning the item at `index`.
    pub fn into_item(self, index: usize) -> (r: Option<T>)
        ensures
            match r {
                Some(v) => index < self.list_of().items_view().len() && v
                    == self.list_of().items_view()[index as int],
                None => index >= self.list_of().items_view().len(),
            },
    {
        self.list.into_item(index)
    }

    /// Discards any in-flight fetch, resets pagination, and schedules a
    /// replacing fetch of page 1 with the given options.  Whatever the
    /// old fetch returns later will find its ticket superseded.
    fn fetch_and_replace_items(&mut self, options: crate::options::FetchOptions) -> (cmd:
        FetchCommand)
        requires
            old(self).wf(),
            options.wf(),
            old(self).fetcher_of().issued() < u64::MAX,
        ensures
            final(self).wf(),
            cmd.ticket == old(self).fetcher_of().issued(),
            cmd.page == 1,
            cmd.append == false,
            cmd.options.wf(),
            cmd.options.as_map() == options.as_map(),
            final(self).fetcher_of().in_flight() == Some(cmd.ticket),
            final(self).fetcher_of().issued() == old(self).fetcher_of().issued() + 1,
            final(self).fetcher_of().options_map() == options.as_map(),
            final(self).pagination_of().current_page == 0,
            final(self).pagination_of().has_next_page == true,
            final(self).pagination_of().per_page == old(self).pagination_of().per_page,
            final(self).mode_of() == old(self).mode_of(),
            final(self).list_of() == old(self).list_of(),
            final(self).search_of() == old(self).search_of(),
    {
        self.item_fetcher.reset();
        self.pagination.reset();
        self.item_fetcher.schedule(options, 1, false)
    }

    /// Schedules an appending fetch of the page after the current one,
    /// with the options already in effect.
    fn fetch_and_append_items(&mut self) -> (cmd: FetchCommand)
        requires
            old(self).wf(),
            old(self).fetcher_of().issued() < u64::MAX,
            old(self).pagination_of().current_page < u32::MAX,
        ensures
            final(self).wf(),
            cmd.ticket == old(self).fetcher_of().issued(),
            cmd.page == old(self).pagination_of().current_page + 1,
            cmd.append == true,
            cmd.options.wf(),
            cmd.options.as_map() == old(self).fetcher_of().options_map(),
            final(self).fetcher_of().in_flight() == Some(cmd.ticket),
            final(self).fetcher_of().issued() == old(self).fetcher_of().issued() + 1,
            final(self).fetcher_of().options_map() == old(self).fetcher_of().options_map(),
            final(self).pagination_of() == old(self).pagination_of(),
            final(self).mode_of() == old(self).mode_of(),
            final(self).list_of() == old(self).list_of(),
            final(self).search_of() == old(self).search_of(),
    {
        let options = self.item_fetcher.current_options().duplicate();
        let page = self.pagination.current_page + 1;
        self.item_fetcher.schedule(options, page, true)
    }

    /// The per-tick lookahead decision: when `lookahead_due`, schedules
    /// an appending fetch for the next page and returns its command;
    /// otherwise changes nothing.
    pub fn tick_lookahead(&mut self) -> (cmd: Option<FetchCommand>)
        requires
            old(self).wf(),
            old(self).fetcher_of().issued() < u64::MAX,
        ensures
            final(self).wf(),
            cmd is Some <==> old(self).lookahead_due(),
            cmd is None ==> *final(self) == *old(self),
            cmd matches Some(c) ==> {
                &&& c.ticket == old(self).fetcher_of().issued()
                &&& c.page == old(self).pagination_of().current_page + 1
                &&& c.append == true
                &&& c.options.wf()
                &&& c.options.as_map() == old(self).fetcher_of().options_map()
                &&& final(self).fetcher_of().in_flight() == Some(c.ticket)
                &&& final(self).fetcher_of().issued() == old(self).fetcher_of().issued() + 1
                &&& final(self).fetcher_of().options_map() == old(self).fetcher_of().options_map()
                &&& final(self).pagination_of() == old(self).pagination_of()
                &&& final(self).mode_of() == old(self).mode_of()
                &&& final(self).list_of() == old(self).list_of()
                &&& final(self).search_of() == old(self).search_of()
            },
    {
        let focused_list = match self.mode {
            Mode::Normal(Focus::List) => true,
            _ => false,
        };
        let reached_end = focused_list && (match self.list.selected_index() {
            Some(selected) => self.list.len() - (selected + 1) < LOAD_THRESHOLD,
            None => true,
        });
        if !self.item_fetcher.is_fetching() && self.pagination.has_next_page && reached_end
            && self.pagination.current_page < u32::MAX {
            Some(self.fetch_and_append_items())
        } else {
            None
        }
    }

    /// Merges a successful fetch outcome delivered under `ticket`.  An
    /// outcome whose ticket no longer holds the slot is discarded and
    /// the state is untouched — a stale result can never be observed.
    /// A current outcome frees the slot, merges the items per the
    /// response's mode, adopts its page and has-more flag, and
    /// highlights the first item if none was.
    pub fn apply_success(&mut self, ticket: u64, result: FetchResult<T>) -> (merged: bool)
        requires
            old(self).wf(),
        ensures
            final(self).wf(),
            merged == (old(self).fetcher_of().in_flight() == Some(ticket)),
            !merged ==> *final(self) == *old(self),
            merged ==> {
                &&& final(self).fetcher_of().in_flight() is None
                &&& final(self).fetcher_of().issued() == old(self).fetcher_of().issued()
                &&& final(self).fetcher_of().options_map() == old(
                    self,
                ).fetcher_of().options_map()
                &&& final(self).list_of().items_view() == if result.append_of() {
                    old(self).list_of().items_view() + result.items_view()
                } else {
                    result.items_view()
                }
                &&& final(self).list_of().selected_of() == ({
                    let n = final(self).list_of().items_view().len();
                    if result.append_of() && old(self).list_of().selected_of() is Some {
                        old(self).list_of().selected_of()
                    } else if n > 0 {
                        Some(0usize)
                    } else {
                        None
                    }
                })
                &&& final(self).pagination_of().current_page == result.page_of()
                &&& final(self).pagination_of().has_next_page == result.more_of()
                &&& final(self).pagination_of().per_page == old(self).pagination_of().per_page
                &&& final(self).mode_of() == old(self).mode_of()
                &&& final(self).search_of() == old(self).search_of()
            },
    {
        if !self.item_fetcher.take_if_current(ticket) {
            return false;
        }
        let (items, append, more, page) = result.into_parts();
        if append {
            self.list.append_items(items);
        } else {
            self.list.replace_items(items);
        }
        self.pagination.current_page = page;
        self.pagination.has_next_page = more;
        let none_selected = match self.list.selected_index() {
            Some(_) => false,
            None => true,
        };
        if none_selected {
            self.list.select_next();
        }
        true
    }

    /// Routes a fetch failure delivered under `ticket`.  A stale failure
    /// is discarded like a stale success; a current one frees the slot
    /// and is fatal — the caller aborts the whole session with it.
    pub fn apply_failure(&mut self, ticket: u64) -> (fatal: bool)
        requires
            old(self).wf(),
        ensures
            final(self).wf(),
            fatal == (old(self).fetcher_of().in_flight() == Some(ticket)),
            !fatal ==> *final(self) == *old(self),
            fatal ==> {
                &&& final(self).fetcher_of().in_flight() is None
                &&& final(self).fetcher_of().issued() == old(self).fetcher_of().issued()
                &&& final(self).mode_of() == old(self).mode_of()
                &&& final(self).list_of() == old(self).list_of()
                &&& final(self).search_of() == old(self).search_of()
                &&& final(self).pagination_of() == old(self).pagination_of()
            },
    {
        self.item_fetcher.take_if_current(ticket)
    }
}

/// No observable difference between two controller states.
pub open spec fn unchanged_app<T: ListableItem>(pre: App<T>, post: App<T>) -> bool {
    &&& post.mode_of() == pre.mode_of()
    &&& post.fetcher_of() == pre.fetcher_of()
    &&& post.list_of() == pre.list_of()
    &&& post.search_of() == pre.search_of()
    &&& post.pagination_of() == pre.pagination_of()
}

/// Everything but the mode is unchanged, and the mode becomes `m`.
pub open spec fn only_mode_changed<T: ListableItem>(pre: App<T>, post: App<T>, m: Mode) -> bool {
    &&& post.mode_of() == m
    &&& post.fetcher_of() == pre.fetcher_of()
    &&& post.list_of() == pre.list_of()
    &&& post.search_of() == pre.search_of()
    &&& post.pagination_of() == pre.pagination_of()
}

/// Everything but the list's highlight is unchanged, which becomes `sel`.
pub open spec fn only_selection_changed<T: ListableItem>(
    pre: App<T>,
    post: App<T>,
    sel: Option<usize>,
) -> bool {
    &&& post.mode_of() == pre.mode_of()
    &&& post.fetcher_of() == pre.fetcher_of()
    &&& post.list_of().items_view() == pre.list_of().items_view()
    &&& post.list_of().selected_of() == sel
    &&& post.search_of() == pre.search_of()
    &&& post.pagination_of() == pre.pagination_of()
}

/// Everything but the search editor is unchanged.
pub open spec fn only_search_changed<T: ListableItem>(pre: App<T>, post: App<T>) -> bool {
    &&& post.mode_of() == pre.mode_of()
    &&& post.fetcher_of() == pre.fetcher_of()
    &&& post.list_of() == pre.list_of()
    &&& post.pagination_of() == pre.pagination_of()
}

/// The editor's clusters and history are unchanged and the cursor moves
/// to `cur`.
pub open spec fn cursor_moved(pre: SearchState, post: SearchState, cur: int) -> bool {
    &&& post.clusters_view() == pre.clusters_view()
    &&& post.cursor_at() == cur
    &&& post.history_view() == pre.history_view()
    &&& post.browsing() == pre.browsing()
}

/// The key transition table for normal mode with the list focused.
pub open spec fn list_key_rel<T: ListableItem>(
    pre: App<T>,
    post: App<T>,
    code: KeyCode,
    ctrl: bool,
    r: UserAction,
) -> bool {
    match code {
        KeyCode::Esc => r == UserAction::Quit && unchanged_app(pre, post),
        KeyCode::Char(c) => if ctrl && c == 'c' {
            r == UserAction::Quit && unchanged_app(pre, post)
        } else if c == '?' {
            r == UserAction::NoOp && only_mode_changed(pre, post, Mode::Help(Focus::List))
        } else {
            // any other printable character moves focus to the search
            // bar and types there
            &&& r == UserAction::NoOp
            &&& post.mode_of() == Mode::Normal(Focus::SearchBar)
            &&& post.fetcher_of() == pre.fetcher_of()
            &&& post.list_of() == pre.list_of()
            &&& post.pagination_of() == pre.pagination_of()
            &&& crate::search::insert_rel(pre.search_of(), post.search_of(), c)
            &&& post.search_of().browsing() is None
        },
        KeyCode::Tab | KeyCode::BackTab => r == UserAction::NoOp && only_mode_changed(
            pre,
            post,
            Mode::Normal(Focus::SearchBar),
        ),
        KeyCode::Up => r == UserAction::NoOp && only_selection_changed(
            pre,
            post,
            crate::list::sel_prev(
                pre.list_of().items_view().len() as int,
                pre.list_of().selected_of(),
            ),
        ),
        KeyCode::Down => r == UserAction::NoOp && only_selection_changed(
            pre,
            post,
            crate::list::sel_next(
                pre.list_of().items_view().len() as int,
                pre.list_of().selected_of(),
            ),
        ),
        KeyCode::PageUp => r == UserAction::NoOp && only_selection_changed(
            pre,
            post,
            crate::list::sel_page_up(
                pre.list_of().items_view().len() as int,
                pre.list_of().selected_of(),
                pre.pagination_of().per_page,
            ),
        ),
        KeyCode::PageDown => r == UserAction::NoOp && only_selection_changed(
            pre,
            post,
            crate::list::sel_page_down(
                pre.list_of().items_view().len() as int,
                pre.list_of().selected_of(),
                pre.pagination_of().per_page,
            ),
        ),
        KeyCode::Enter => unchanged_app(pre, post) && r == (match pre.list_of().selected_of() {
            Some(i) => UserAction::Select(i),
            None => UserAction::NoOp,
        }),
        _ => r == UserAction::NoOp && unchanged_app(pre, post),
    }
}

/// The key transition table for normal mode with the search bar focused.
/// `r.1` is the replacing fetch that pressing Enter schedules.
pub open spec fn search_key_rel<T: ListableItem>(
    pre: App<T>,
    post: App<T>,
    code: KeyCode,
    ctrl: bool,
    alt: bool,
    r: (UserAction, Option<FetchCommand>),
) -> bool {
    match code {
        KeyCode::Esc => r.1 is None && (if pre.search_of().clusters_view().len() > 0 {
            r.0 == UserAction::NoOp && only_search_changed(pre, post) && crate::search::cleared_rel(
                pre.search_of(),
                post.search_of(),
            )
        } else {
            r.0 == UserAction::Quit && unchanged_app(pre, post)
        }),
        KeyCode::Char(c) => r.1 is None && (if ctrl && c == 'c' {
            r.0 == UserAction::Quit && unchanged_app(pre, post)
        } else if ctrl && c == 'a' {
            r.0 == UserAction::NoOp && only_search_changed(pre, post) && cursor_moved(
                pre.search_of(),
                post.search_of(),
                0,
            )
        } else if ctrl && c == 'e' {
            r.0 == UserAction::NoOp && only_search_changed(pre, post) && cursor_moved(
                pre.search_of(),
                post.search_of(),
                pre.search_of().clusters_view().len() as int,
            )
        } else if ctrl && c == 'l' {
            r.0 == UserAction::NoOp && only_search_changed(pre, post) && crate::search::cleared_rel(
                pre.search_of(),
                post.search_of(),
            )
        } else if c == '?' && pre.search_of().clusters_view().len() == 0 {
            r.0 == UserAction::NoOp && only_mode_changed(pre, post, Mode::Help(Focus::SearchBar))
        } else {
            &&& r.0 == UserAction::NoOp
            &&& only_search_changed(pre, post)
            &&& crate::search::insert_rel(pre.search_of(), post.search_of(), c)
            &&& post.search_of().browsing() is None
        }),
        KeyCode::Backspace => {
            let cl = pre.search_of().clusters_view();
            let cur = pre.search_of().cursor_at();
            &&& r == (UserAction::NoOp, Option::<FetchCommand>::None)
            &&& only_search_changed(pre, post)
            &&& post.search_of().history_view() == pre.search_of().history_view()
            &&& post.search_of().browsing() is None
            &&& if alt {
                post.search_of().clusters_view() == cl.take(word_boundary_back(cl, cur)) + cl.skip(
                    cur,
                ) && post.search_of().cursor_at() == word_boundary_back(cl, cur)
            } else {
                (post.search_of().clusters_view(), post.search_of().cursor_at())
                    == delete_before_transition(cl, cur)
            }
        },
        KeyCode::Delete => {
            let cl = pre.search_of().clusters_view();
            let cur = pre.search_of().cursor_at();
            &&& r == (UserAction::NoOp, Option::<FetchCommand>::None)
            &&& only_search_changed(pre, post)
            &&& post.search_of().history_view() == pre.search_of().history_view()
            &&& post.search_of().browsing() is None
            &&& post.search_of().cursor_at() == cur
            &&& if alt {
                post.search_of().clusters_view() == cl.take(cur) + cl.skip(
                    word_boundary_fwd(cl, cur),
                )
            } else {
                post.search_of().clusters_view() == (if cur < cl.len() {
                    cl.remove(cur)
                } else {
                    cl
                })
            }
        },
        KeyCode::Left => {
            let cur = pre.search_of().cursor_at();
            let cl = pre.search_of().clusters_view();
            &&& r == (UserAction::NoOp, Option::<FetchCommand>::None)
            &&& only_search_changed(pre, post)
            &&& cursor_moved(
                pre.search_of(),
                post.search_of(),
                if alt || ctrl {
                    word_boundary_back(cl, cur)
                } else if cur > 0 {
                    cur - 1
                } else {
                    0
                },
            )
        },
        KeyCode::Right => {
            let cur = pre.search_of().cursor_at();
            let cl = pre.search_of().clusters_view();
            &&& r == (UserAction::NoOp, Option::<FetchCommand>::None)
            &&& only_search_changed(pre, post)
            &&& cursor_moved(
                pre.search_of(),
                post.search_of(),
                if alt || ctrl {
                    skip_white_fwd(cl, skip_word_fwd(cl, cur))
                } else if cur < cl.len() {
                    cur + 1
                } else {
                    cur
                },
            )
        },
        KeyCode::Up => r == (UserAction::NoOp, Option::<FetchCommand>::None)
            && only_search_changed(pre, post) && crate::search::history_up_rel(
            pre.search_of(),
            post.search_of(),
        ),
        KeyCode::Down => r == (UserAction::NoOp, Option::<FetchCommand>::None)
            && only_search_changed(pre, post) && crate::search::history_down_rel(
            pre.search_of(),
            post.search_of(),
        ),
        KeyCode::Home => r == (UserAction::NoOp, Option::<FetchCommand>::None)
            && only_search_changed(pre, post) && cursor_moved(
            pre.search_of(),
            post.search_of(),
            0,
        ),
        KeyCode::End => r == (UserAction::NoOp, Option::<FetchCommand>::None)
            && only_search_changed(pre, post) && cursor_moved(
            pre.search_of(),
            post.search_of(),
            pre.search_of().clusters_view().len() as int,
        ),
        KeyCode::Tab | KeyCode::BackTab => r == (UserAction::NoOp, Option::<FetchCommand>::None)
            && only_mode_changed(pre, post, Mode::Normal(Focus::List)),
        KeyCode::Enter => {
            // submit: parse the query, record it, clear the editor,
            // focus the list, and schedule a replacing fetch of page 1
            let raw = pre.search_of().text();
            &&& r.0 == UserAction::NoOp
            &&& r.1 matches Some(cmd) && {
                let cmd = r.1->0;
                &&& cmd.ticket == pre.fetcher_of().issued()
                &&& cmd.page == 1
                &&& cmd.append == false
                &&& cmd.options.wf()
                &&& cmd.options.as_map() == fetch_options_spec(raw)
            }
            &&& post.mode_of() == Mode::Normal(Focus::List)
            &&& post.fetcher_of().in_flight() == Some(pre.fetcher_of().issued())
            &&& post.fetcher_of().issued() == pre.fetcher_of().issued() + 1
            &&& post.fetcher_of().options_map() == fetch_options_spec(raw)
            &&& post.pagination_of().current_page == 0
            &&& post.pagination_of().has_next_page == true
            &&& post.pagination_of().per_page == pre.pagination_of().per_page
            &&& post.list_of() == pre.list_of()
            &&& post.search_of().clusters_view() == Seq::<Seq<char>>::empty()
            &&& post.search_of().cursor_at() == 0
            &&& post.search_of().browsing() is None
            &&& post.search_of().history_view() == if raw.len() == 0 {
                pre.search_of().history_view()
            } else {
                history_after_save(pre.search_of().history_view(), raw)
            }
        },
        _ => r == (UserAction::NoOp, Option::<FetchCommand>::None) && unchanged_app(pre, post),
    }
}

/// The key transition table for the help overlay: Ctrl+C quits, any
/// other key returns to normal mode with the remembered focus.
pub open spec fn help_key_rel<T: ListableItem>(
    pre: App<T>,
    post: App<T>,
    code: KeyCode,
    ctrl: bool,
    r: UserAction,
) -> bool {
    let back = match pre.mode_of() {
        Mode::Help(f) => Mode::Normal(f),
        m => m,
    };
    match code {
        KeyCode::Char(c) => if ctrl && c == 'c' {
            r == UserAction::Quit && unchanged_app(pre, post)
        } else {
            r == UserAction::NoOp && only_mode_changed(pre, post, back)
        },
        _ => r == UserAction::NoOp && only_mode_changed(pre, post, back),
    }
}

impl<T: ListableItem> App<T> {
    /// Key routing for normal mode with the list focused.
    pub fn handle_key_event_list_widget(&mut self, code: KeyCode, ctrl: bool) -> (r: UserAction)
        requires
            old(self).wf(),
        ensures
            final(self).wf(),
            list_key_rel(*old(self), *final(self), code, ctrl, r),
    {
        match code {
            KeyCode::Esc => UserAction::Quit,
            KeyCode::Char(c) => {
                if ctrl && c == 'c' {
                    UserAction::Quit
                } else if c == '?' {
                    self.mode = Mode::Help(Focus::List);
                    UserAction::NoOp
                } else {
                    self.mode = Mode::Normal(Focus::SearchBar);
                    self.search.insert_char_at_cursor(c);
                    UserAction::NoOp
                }
            },
            KeyCode::Tab | KeyCode::BackTab => {
                self.mode = Mode::Normal(Focus::SearchBar);
                UserAction::NoOp
            },
            KeyCode::Up => {
                self.list.select_previous();
                UserAction::NoOp
            },
            KeyCode::Down => {
                self.list.select_next();
                UserAction::NoOp
            },
            KeyCode::PageUp => {
                let rows = self.pagination.per_page;
                self.list.select_page_up(rows);
                UserAction::NoOp
            },
            KeyCode::PageDown => {
                let rows = self.pagination.per_page;
                self.list.select_page_down(rows);
                UserAction::NoOp
            },
            KeyCode::Enter => {
                match self.list.selected_index() {
                    Some(i) => UserAction::Select(i),
                    None => UserAction::NoOp,
                }
            },
            _ => UserAction::NoOp,
        }
    }

    /// Key routing for normal mode with the search bar focused; Enter
    /// returns the replacing fetch to run.
    pub fn handle_key_event_search_bar_widget(&mut self, code: KeyCode, ctrl: bool, alt: bool) -> (r:
        (UserAction, Option<FetchCommand>))
        requires
            old(self).wf(),
            old(self).fetcher_of().issued() < u64::MAX,
        ensures
            final(self).wf(),
            search_key_rel(*old(self), *final(self), code, ctrl, alt, r),
    {
        match code {
            KeyCode::Esc => {
                if self.search.has_query() {
                    self.search.clear();
                    (UserAction::NoOp, None)
                } else {
                    (UserAction::Quit, None)
                }
            },
            KeyCode::Char(c) => {
                if ctrl && c == 'c' {
                    (UserAction::Quit, None)
                } else if ctrl && c == 'a' {
                    self.search.move_cursor_to_start();
                    (UserAction::NoOp, None)
                } else if ctrl && c == 'e' {
                    self.search.move_cursor_to_end();
                    (UserAction::NoOp, None)
                } else if ctrl && c == 'l' {
                    self.search.clear();
                    (UserAction::NoOp, None)
                } else if c == '?' && !self.search.has_query() {
                    self.mode = Mode::Help(Focus::SearchBar);
                    (UserAction::NoOp, None)
                } else {
                    self.search.insert_char_at_cursor(c);
                    (UserAction::NoOp, None)
                }
            },
            KeyCode::Backspace => {
                if alt {
                    self.search.delete_word_before_cursor();
                } else {
                    self.search.delete_char_before_cursor();
                }
                (UserAction::NoOp, None)
            },
            KeyCode::Delete => {
                if alt {
                    self.search.delete_word_after_cursor();
                } else {
                    self.search.delete_char_after_cursor();
                }
                (UserAction::NoOp, None)
            },
            KeyCode::Left => {
                if alt || ctrl {
                    self.search.move_cursor_left_word();
                } else {
                    self.search.move_cursor_left();
                }
                (UserAction::NoOp, None)
            },
            KeyCode::Right => {
                if alt || ctrl {
                    self.search.move_cursor_right_word();
                } else {
                    self.search.move_cursor_right();
                }
                (UserAction::NoOp, None)
            },
            KeyCode::Up => {
                self.search.navigate_history_up();
                (UserAction::NoOp, None)
            },
            KeyCode::Down => {
                self.search.navigate_history_down();
                (UserAction::NoOp, None)
            },
            KeyCode::Home => {
                self.search.move_cursor_to_start();
                (UserAction::NoOp, None)
            },
            KeyCode::End => {
                self.search.move_cursor_to_end();
                (UserAction::NoOp, None)
            },
            KeyCode::Tab | KeyCode::BackTab => {
                self.mode = Mode::Normal(Focus::List);
                (UserAction::NoOp, None)
            },
            KeyCode::Enter => {
                let raw = self.search.current_query();
                let fetch_options = parse_fetch_options(raw.as_str());
                self.search.save_to_history();
                self.search.clear();
                self.mode = Mode::Normal(Focus::List);
                let cmd = self.fetch_and_replace_items(fetch_options);
                (UserAction::NoOp, Some(cmd))
            },
            _ => (UserAction::NoOp, None),
        }
    }

    /// Key routing for the help overlay.
    pub fn handle_key_event_help_widget(&mut self, code: KeyCode, ctrl: bool) -> (r: UserAction)
        requires
            old(self).wf(),
        ensures
            final(self).wf(),
            help_key_rel(*old(self), *final(self), code, ctrl, r),
    {
        match code {
            KeyCode::Char(c) => {
                if ctrl && c == 'c' {
                    UserAction::Quit
                } else {
                    if let Mode::Help(focus) = self.mode {
                        self.mode = Mode::Normal(focus);
                    }
                    UserAction::NoOp
                }
            },
            _ => {
                if let Mode::Help(focus) = self.mode {
                    self.mode = Mode::Normal(focus);
                }
                UserAction::NoOp
            },
        }
    }

    /// Routes a key event by the current mode and focus.  Only key
    /// presses act; repeats and releases are ignored.
    pub fn handle_key_event(&mut self, event: KeyEvent) -> (r: (UserAction, Option<FetchCommand>))
        requires
            old(self).wf(),
            old(self).fetcher_of().issued() < u64::MAX,
        ensures
            final(self).wf(),
            !event.press ==> r == (
                UserAction::NoOp,
                Option::<FetchCommand>::None,
            ) && unchanged_app(*old(self), *final(self)),
            event.press ==> match old(self).mode_of() {
                Mode::Normal(Focus::List) => r.1 is None && list_key_rel(
                    *old(self),
                    *final(self),
                    event.code,
                    event.ctrl,
                    r.0,
                ),
                Mode::Normal(Focus::SearchBar) => search_key_rel(
                    *old(self),
                    *final(self),
                    event.code,
                    event.ctrl,
                    event.alt,
                    r,
                ),
                Mode::Help(_) => r.1 is None && help_key_rel(
                    *old(self),
                    *final(self),
                    event.code,
                    event.ctrl,
                    r.0,
                ),
            },
    {
        if !event.press {
            return (UserAction::NoOp, None);
        }
        match self.mode {
            Mode::Normal(Focus::List) => {
                let action = self.handle_key_event_list_widget(event.code, event.ctrl);
                (action, None)
            },
            Mode::Normal(Focus::SearchBar) => {
                self.handle_key_event_search_bar_widget(event.code, event.ctrl, event.alt)
            },
            Mode::Help(_) => {
                let action = self.handle_key_event_help_widget(event.code, event.ctrl);
                (action, None)
            },
        }
    }
}

} // verus!
