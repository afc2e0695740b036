//! The single-slot fetch scheduler and the fetch response type.
//!
//! At most one fetch is ever observable.  Each scheduled fetch gets a
//! fresh ticket and installs it as the slot; a result is accepted only
//! when it carries the ticket currently in the slot, so a result from a
//! fetch that was superseded — by a new search or by `reset` — can never
//! be seen.  The outside runner (threads, channels) only carries tickets
//! and responses back; every decision about them is made here.

use vstd::prelude::*;
use crate::options::FetchOptions;

verus! {

/// The response produced by the fetch callback, tagged with the page it
/// answers and how it is to be merged.
pub struct FetchResult<T> {
    append_items: bool,
    more_items: bool,
    items: Vec<T>,
    page: u32,
}

impl<T> FetchResult<T> {
    pub closed spec fn items_view(&self) -> Seq<T> {
        self.items@
    }

    pub closed spec fn append_of(&self) -> bool {
        self.append_items
    }

    pub closed spec fn more_of(&self) -> bool {
        self.more_items
    }

    pub closed spec fn page_of(&self) -> u32 {
        self.page
    }

    /// An empty first-page response that replaces and promises more.
    pub fn new() -> (r: FetchResult<T>)
        ensures
            r.items_view() == Seq::<T>::empty(),
            r.append_of() == false,
            r.more_of() == true,
            r.page_of() == 1,
    {
        let r = FetchResult { append_items: false, items: Vec::new(), more_items: true, page: 1 };
        proof {
            assert(r.items_view() =~= Seq::<T>::empty());
        }
        r
    }

    /// Extends the carried items.
    pub fn with_items(self, items: Vec<T>) -> (r: FetchResult<T>)
        ensures
            r.items_view() == self.items_view() + items@,
            r.append_of() == self.append_of(),
            r.more_of() == self.more_of(),
            r.page_of() == self.page_of(),
    {
        let mut r = self;
        let mut items = items;
        r.items.append(&mut items);
        r
    }

    /// Records whether more pages exist after this one.
    pub fn with_more_items(self, more_items: bool) -> (r: FetchResult<T>)
        ensures
            r.items_view() == self.items_view(),
            r.append_of() == self.append_of(),
            r.more_of() == more_items,
            r.page_of() == self.page_of(),
    {
        let mut r = self;
        r.more_items = more_items;
        r
    }

    /// Records whether the items extend or replace the list.
    pub fn with_append_items(self, append_items: bool) -> (r: FetchResult<T>)
        ensures
            r.items_view() == self.items_view(),
            r.append_of() == append_items,
            r.more_of() == self.more_of(),
            r.page_of() == self.page_of(),
    {
        let mut r = self;
        r.append_items = append_items;
        r
    }

    /// Records the page this response answers.
    pub fn with_page(self, page: u32) -> (r: FetchResult<T>)
        ensures
            r.items_view() == self.items_view(),
            r.append_of() == self.append_of(),
            r.more_of() == self.more_of(),
            r.page_of() == page,
    {
        let mut r = self;
        r.page = page;
        r
    }

    /// Splits the response into its parts.
    pub fn into_parts(self) -> (r: (Vec<T>, bool, bool, u32))
        ensures
            r.0@ == self.items_view(),
            r.1 == self.append_of(),
            r.2 == self.more_of(),
            r.3 == self.page_of(),
    {
        (self.items, self.append_items, self.more_items, self.page)
    }
}

/// A fetch for the outside runner to perform: call the fetch callback
/// with the page and options, and deliver the outcome back under the
/// ticket.
pub struct FetchCommand {
    pub ticket: u64,
    pub page: u32,
    pub append: bool,
    pub options: FetchOptions,
}

/// Owner of the single observable fetch slot.
pub struct ItemFetcher {
    slot: Option<u64>,
    next_ticket: u64,
    options: FetchOptions,
}

impl ItemFetcher {
    /// The ticket of the fetch occupying the slot, if any.
    pub closed spec fn in_flight(&self) -> Option<u64> {
        self.slot
    }

    /// Tickets handed out so far; the next fetch gets this number.
    pub closed spec fn issued(&self) -> u64 {
        self.next_ticket
    }

    /// The options of the most recently scheduled fetch.
    pub closed spec fn options_map(&self) -> Map<Seq<char>, Seq<char>> {
        self.options.as_map()
    }

    pub closed spec fn wf(&self) -> bool {
        &&& self.options.wf()
        &&& match self.slot {
            Some(t) => t < self.next_ticket,
            None => true,
        }
    }

    /// An idle fetcher with no options.
    pub fn new() -> (r: ItemFetcher)
        ensures
            r.wf(),
            r.in_flight() is None,
            r.issued() == 0,
            r.options_map() == Map::<Seq<char>, Seq<char>>::empty(),
    {
        ItemFetcher { slot: None, next_ticket: 0, options: FetchOptions::new() }
    }

    /// Whether a fetch occupies the slot.
    pub fn is_fetching(&self) -> (r: bool)
        ensures
            r == (self.in_flight() is Some),
    {
        match self.slot {
            Some(_) => true,
            None => false,
        }
    }

    /// The options of the most recently scheduled fetch, for display.
    pub fn current_options(&self) -> (r: &FetchOptions)
        ensures
            r.as_map() == self.options_map(),
            self.wf() ==> r.wf(),
    {
        &self.options
    }

    /// Schedules a fetch: a fresh ticket takes the slot, superseding
    /// whatever held it, and the command for the runner is returned.
    pub fn schedule(&mut self, options: FetchOptions, page: u32, append: bool) -> (r: FetchCommand)
        requires
            old(self).wf(),
            options.wf(),
            old(self).issued() < u64::MAX,
        ensures
            final(self).wf(),
            r.ticket == old(self).issued(),
            r.page == page,
            r.append == append,
            r.options.as_map() == options.as_map(),
            r.options.wf(),
            final(self).in_flight() == Some(r.ticket),
            final(self).issued() == old(self).issued() + 1,
            final(self).options_map() == options.as_map(),
    {
        let ticket = self.next_ticket;
        self.next_ticket = self.next_ticket + 1;
        self.slot = Some(ticket);
        let command_options = options.duplicate();
        self.options = options;
        FetchCommand { ticket, page, append, options: command_options }
    }

    /// Discards the slot without touching the in-flight worker: a later
    /// delivery under the old ticket will find the slot gone.
    pub fn reset(&mut self)
        requires
            old(self).wf(),
        ensures
            final(self).wf(),
            final(self).in_flight() is None,
            final(self).issued() == old(self).issued(),
            final(self).options_map() == old(self).options_map(),
    {
        self.slot = None;
    }

    /// Frees the slot if — and only if — `ticket` is the one holding it;
    /// a stale ticket changes nothing.
    pub fn take_if_current(&mut self, ticket: u64) -> (r: bool)
        requires
            old(self).wf(),
        ensures
            final(self).wf(),
            r == (old(self).in_flight() == Some(ticket)),
            r ==> final(self).in_flight() is None,
            !r ==> *final(self) == *old(self),
            final(self).issued() == old(self).issued(),
            final(self).options_map() == old(self).options_map(),
    {
        match self.slot {
            Some(t) => {
                if t == ticket {
                    self.slot = None;
                    true
                } else {
                    false
                }
            },
            None => false,
        }
    }
}

} // verus!
