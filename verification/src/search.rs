//! The search bar editor: a single-line text buffer addressed by grapheme
//! cluster, with a cursor and a bounded, deduplicated history of submitted
//! queries.
//!
//! The buffer is kept as the list of its grapheme clusters, each a
//! non-empty string; the text is their concatenation and the cursor is an
//! index between clusters.  Where a cluster boundary has to be computed —
//! when a typed character may merge with the cluster before the cursor, or
//! when a history entry is loaded — the unicode-segmentation crate decides,
//! through a trusted wrapper.

use vstd::prelude::*;
use vstd::seq_lib::lemma_flatten_concat;
use vstd::string::*;
use unicode_segmentation::UnicodeSegmentation;
use crate::text::{is_white, is_whitespace_char, push_char};

verus! {

/// Most history entries kept; the oldest is evicted beyond this.
pub const MAX_HISTORY_SIZE: usize = 100;

/// What unicode-segmentation's `graphemes(true)` returns: the extended
/// grapheme clusters of a string, in order.
pub uninterp spec fn graphemes_of(s: Seq<char>) -> Seq<Seq<char>>;

/// Relies on unicode_segmentation::UnicodeSegmentation::graphemes(true):
/// the clusters are consecutive non-empty substrings that concatenate back
/// to the input, and depend on the characters alone.
#[verifier::external_body]
fn split_graphemes(s: &str) -> (r: Vec<String>)
    ensures
        r.deep_view() == graphemes_of(s@),
        r.deep_view().flatten() == s@,
        forall|i: int| 0 <= i < r.deep_view().len() ==> (#[trigger] r.deep_view()[i]).len() > 0,
{
    s.graphemes(true).map(|g| g.to_owned()).collect()
}

/// What unicode-width's `UnicodeWidthStr::width` returns for a string.
pub uninterp spec fn width_of(s: Seq<char>) -> nat;

/// Relies on unicode_width::UnicodeWidthStr::width: the displayed column
/// width of a string depends on the characters alone.
#[verifier::external_body]
fn str_width(s: &str) -> (r: usize)
    ensures
        r == width_of(s@),
{
    unicode_width::UnicodeWidthStr::width(s)
}

/// A grapheme cluster counts as whitespace when every character in it is.
pub open spec fn white_cluster(g: Seq<char>) -> bool {
    forall|i: int| 0 <= i < g.len() ==> is_white(#[trigger] g[i])
}

fn is_white_cluster(g: &str) -> (r: bool)
    ensures
        r == white_cluster(g@),
{
    let n = g.unicode_len();
    let mut i: usize = 0;
    while i < n
        invariant
            n == g@.len(),
            0 <= i <= n,
            forall|j: int| 0 <= j < i ==> is_white(#[trigger] g@[j]),
        decreases n - i,
    {
        if !is_whitespace_char(g.get_char(i)) {
            return false;
        }
        i = i + 1;
    }
    true
}

/// Index of the first history entry equal to `q`; `h.len()` when absent.
pub open spec fn hist_find(h: Seq<Seq<char>>, q: Seq<char>) -> nat
    decreases h.len(),
{
    if h.len() == 0 {
        0
    } else if h[0] == q {
        0
    } else {
        (1 + hist_find(h.drop_first(), q)) as nat
    }
}

pub proof fn lemma_hist_find(h: Seq<Seq<char>>, q: Seq<char>)
    ensures
        hist_find(h, q) <= h.len(),
        forall|j: int| 0 <= j < hist_find(h, q) ==> h[j] != q,
        hist_find(h, q) < h.len() ==> h[hist_find(h, q) as int] == q,
    decreases h.len(),
{
    if h.len() > 0 && h[0] != q {
        lemma_hist_find(h.drop_first(), q);
        assert forall|j: int| 0 <= j < hist_find(h, q) implies h[j] != q by {
            if j > 0 {
                assert(h.drop_first()[j - 1] == h[j]);
            }
        }
        if hist_find(h, q) < h.len() {
            assert(h.drop_first()[hist_find(h, q) - 1] == h[hist_find(h, q) as int]);
        }
    }
}

/// The history after submitting `q`: any earlier equal entry moves to the
/// most-recent position, and the oldest entry is evicted past the cap.
pub open spec fn history_after_save(h: Seq<Seq<char>>, q: Seq<char>) -> Seq<Seq<char>> {
    let h1 = if hist_find(h, q) < h.len() {
        h.remove(hist_find(h, q) as int)
    } else {
        h
    };
    let h2 = h1.push(q);
    if h2.len() > MAX_HISTORY_SIZE {
        h2.subrange(1, h2.len() as int)
    } else {
        h2
    }
}

/// The editor state after a character is typed at the cursor: the cluster
/// just before the cursor (if any) is re-segmented together with the new
/// character, and the cursor lands right after the inserted material.
pub open spec fn insert_transition(cl: Seq<Seq<char>>, cur: int, c: char) -> (Seq<Seq<char>>, int) {
    if cur > 0 {
        let segs = graphemes_of(cl[cur - 1].push(c));
        (cl.take(cur - 1) + segs + cl.skip(cur), cur - 1 + segs.len())
    } else {
        let segs = graphemes_of(seq![c]);
        (segs + cl, segs.len() as int)
    }
}

/// The editor state after deleting one grapheme before the cursor.
pub open spec fn delete_before_transition(cl: Seq<Seq<char>>, cur: int) -> (Seq<Seq<char>>, int) {
    if cur > 0 {
        (cl.remove(cur - 1), cur - 1)
    } else {
        (cl, cur)
    }
}

/// Single-line search editor with grapheme-cluster cursor and history.
pub struct SearchState {
    clusters: Vec<String>,
    cursor: usize,
    history: Vec<String>,
    history_index: Option<usize>,
}

impl SearchState {
    /// The grapheme clusters of the query.
    pub closed spec fn clusters_view(&self) -> Seq<Seq<char>> {
        self.clusters.deep_view()
    }

    /// The query text: the concatenation of its clusters.
    pub closed spec fn text(&self) -> Seq<char> {
        self.clusters_view().flatten()
    }

    pub closed spec fn cursor_at(&self) -> int {
        self.cursor as int
    }

    pub closed spec fn history_view(&self) -> Seq<Seq<char>> {
        self.history.deep_view()
    }

    pub closed spec fn browsing(&self) -> Option<usize> {
        self.history_index
    }

    /// Well-formedness: the cursor stays within the grapheme count, no
    /// cluster is empty, and the history is bounded, duplicate-free and
    /// free of empty entries.
    pub closed spec fn wf(&self) -> bool {
        &&& 0 <= self.cursor <= self.clusters_view().len()
        &&& forall|i: int|
            0 <= i < self.clusters_view().len() ==> (#[trigger] self.clusters_view()[i]).len() > 0
        &&& self.history_view().len() <= MAX_HISTORY_SIZE
        &&& forall|i: int, j: int|
            0 <= i < j < self.history_view().len() ==> #[trigger] self.history_view()[i]
                != #[trigger] self.history_view()[j]
        &&& forall|i: int|
            0 <= i < self.history_view().len() ==> (#[trigger] self.history_view()[i]).len() > 0
        &&& match self.history_index {
            Some(i) => i < self.history_view().len(),
            None => true,
        }
    }

    /// A fresh, empty editor.
    pub fn new() -> (r: SearchState)
        ensures
            r.wf(),
            r.text() == Seq::<char>::empty(),
            r.clusters_view() == Seq::<Seq<char>>::empty(),
            r.cursor_at() == 0,
            r.history_view() == Seq::<Seq<char>>::empty(),
            r.browsing() is None,
    {
        let r = SearchState {
            clusters: Vec::new(),
            cursor: 0,
            history: Vec::new(),
            history_index: None,
        };
        proof {
            assert(r.clusters_view() =~= Seq::<Seq<char>>::empty());
            assert(r.history_view() =~= Seq::<Seq<char>>::empty());
            assert(r.text() =~= Seq::<char>::empty());
        }
        r
    }

    /// Number of grapheme clusters in the query.
    pub fn grapheme_count(&self) -> (r: usize)
        ensures
            r == self.clusters_view().len(),
    {
        self.clusters.len()
    }

    /// Whether the query is non-empty.
    pub fn has_query(&self) -> (r: bool)
        ensures
            r == (self.clusters_view().len() > 0),
    {
        self.clusters.len() > 0
    }

    /// The query as a string.
    pub fn current_query(&self) -> (r: String)
        ensures
            r@ == self.text(),
    {
        let mut r = String::new();
        let mut i: usize = 0;
        while i < self.clusters.len()
            invariant
                0 <= i <= self.clusters_view().len(),
                r@ == self.clusters_view().take(i as int).flatten(),
            decreases self.clusters_view().len() - i,
        {
            r.append(self.clusters[i].as_str());
            proof {
                let cl = self.clusters_view();
                assert(cl.take(i + 1) =~= cl.take(i as int) + seq![cl[i as int]]);
                lemma_flatten_concat(cl.take(i as int), seq![cl[i as int]]);
                seq![cl[i as int]].lemma_flatten_one_element();
            }
            i = i + 1;
        }
        proof {
            assert(self.clusters_view().take(self.clusters_view().len() as int)
                =~= self.clusters_view());
        }
        r
    }

    /// The cursor's grapheme index.
    pub fn cursor_position(&self) -> (r: usize)
        ensures
            r == self.cursor_at(),
    {
        self.cursor
    }

    /// Number of history entries.
    pub fn history_len(&self) -> (r: usize)
        ensures
            r == self.history_view().len(),
    {
        self.history.len()
    }

    /// The history entry at `i`, oldest first, if it exists.
    pub fn history_entry(&self, i: usize) -> (r: Option<String>)
        ensures
            match r {
                Some(v) => i < self.history_view().len() && v@ == self.history_view()[i as int],
                None => i >= self.history_view().len(),
            },
    {
        if i < self.history.len() {
            Some(self.history[i].clone())
        } else {
            None
        }
    }

    /// Leaves history-browsing mode; the query is untouched.
    pub fn exit_history_browsing(&mut self)
        requires
            old(self).wf(),
        ensures
            final(self).wf(),
            final(self).clusters_view() == old(self).clusters_view(),
            final(self).cursor_at() == old(self).cursor_at(),
            final(self).history_view() == old(self).history_view(),
            final(self).browsing() is None,
    {
        self.history_index = None;
    }

    /// Empties the query, resets the cursor and leaves history browsing.
    pub fn clear(&mut self)
        requires
            old(self).wf(),
        ensures
            final(self).wf(),
            final(self).clusters_view() == Seq::<Seq<char>>::empty(),
            final(self).text() == Seq::<char>::empty(),
            final(self).cursor_at() == 0,
            final(self).history_view() == old(self).history_view(),
            final(self).browsing() is None,
    {
        self.history_index = None;
        self.clusters.clear();
        self.cursor = 0;
        proof {
            assert(self.clusters_view() =~= Seq::<Seq<char>>::empty());
            assert(self.text() =~= Seq::<char>::empty());
        }
    }

    /// Moves the cursor one grapheme to the left, stopping at the start.
    pub fn move_cursor_left(&mut self)
        requires
            old(self).wf(),
        ensures
            final(self).wf(),
            final(self).clusters_view() == old(self).clusters_view(),
            final(self).history_view() == old(self).history_view(),
            final(self).browsing() == old(self).browsing(),
            final(self).cursor_at() == if old(self).cursor_at() > 0 {
                old(self).cursor_at() - 1
            } else {
                0
            },
    {
        if self.cursor > 0 {
            self.cursor = self.cursor - 1;
        }
    }

    /// Moves the cursor one grapheme to the right, stopping at the end.
    pub fn move_cursor_right(&mut self)
        requires
            old(self).wf(),
        ensures
            final(self).wf(),
            final(self).clusters_view() == old(self).clusters_view(),
            final(self).history_view() == old(self).history_view(),
            final(self).browsing() == old(self).browsing(),
            final(self).cursor_at() == if old(self).cursor_at() < old(self).clusters_view().len() {
                old(self).cursor_at() + 1
            } else {
                old(self).cursor_at()
            },
    {
        if self.cursor < self.clusters.len() {
            self.cursor = self.cursor + 1;
        }
    }

    /// Moves the cursor to the start of the query.
    pub fn move_cursor_to_start(&mut self)
        requires
            old(self).wf(),
        ensures
            final(self).wf(),
            final(self).clusters_view() == old(self).clusters_view(),
            final(self).history_view() == old(self).history_view(),
            final(self).browsing() == old(self).browsing(),
            final(self).cursor_at() == 0,
    {
        self.cursor = 0;
    }

    /// Moves the cursor past the last grapheme of the query.
    pub fn move_cursor_to_end(&mut self)
        requires
            old(self).wf(),
        ensures
            final(self).wf(),
            final(self).clusters_view() == old(self).clusters_view(),
            final(self).history_view() == old(self).history_view(),
            final(self).browsing() == old(self).browsing(),
            final(self).cursor_at() == old(self).clusters_view().len(),
    {
        self.cursor = self.clusters.len();
    }
}

/// Replaces the cluster range `[from, to)` of `v` with `mid`.
fn splice_clusters(v: &Vec<String>, from: usize, to: usize, mid: &Vec<String>) -> (r: Vec<String>)
    requires
        from <= to <= v@.len(),
    ensures
        r.deep_view() == v.deep_view().take(from as int) + mid.deep_view() + v.deep_view().skip(
            to as int,
        ),
{
    let mut r: Vec<String> = Vec::new();
    let mut i: usize = 0;
    while i < from
        invariant
            from <= to <= v@.len(),
            0 <= i <= from,
            r@.len() == i,
            forall|m: int| 0 <= m < i ==> #[trigger] r@[m]@ == v@[m]@,
        decreases from - i,
    {
        let x = v[i].clone();
        proof {
            assert(x@ == v@[i as int]@);
        }
        r.push(x);
        i = i + 1;
    }
    let mut j: usize = 0;
    while j < mid.len()
        invariant
            from <= to <= v@.len(),
            0 <= j <= mid@.len(),
            r@.len() == from + j,
            forall|m: int| 0 <= m < from ==> #[trigger] r@[m]@ == v@[m]@,
            forall|m: int| from <= m < from + j ==> #[trigger] r@[m]@ == mid@[m - from]@,
        decreases mid@.len() - j,
    {
        let x = mid[j].clone();
        proof {
            assert(x@ == mid@[j as int]@);
        }
        r.push(x);
        j = j + 1;
    }
    let ghost midn = mid@.len() as int;
    let mut k: usize = to;
    while k < v.len()
        invariant
            from <= to <= v@.len(),
            midn == mid@.len(),
            to <= k <= v@.len(),
            r@.len() == from + midn + k - to,
            forall|m: int| 0 <= m < from ==> #[trigger] r@[m]@ == v@[m]@,
            forall|m: int| from <= m < from + midn ==> #[trigger] r@[m]@ == mid@[m - from]@,
            forall|m: int|
                from + midn <= m < from + midn + k - to ==> #[trigger] r@[m]@ == v@[m - from - midn
                    + to]@,
        decreases v@.len() - k,
    {
        let x = v[k].clone();
        proof {
            assert(x@ == v@[k as int]@);
        }
        r.push(x);
        k = k + 1;
    }
    proof {
        assert(r.deep_view() =~~= v.deep_view().take(from as int) + mid.deep_view()
            + v.deep_view().skip(to as int));
    }
    r
}

impl SearchState {
    /// Inserts a character at the cursor.  The cluster just before the
    /// cursor, if any, is re-segmented together with the new character, so
    /// a combining character may join it into a single grapheme; the
    /// cursor lands right after the inserted material.
    pub fn insert_char_at_cursor(&mut self, c: char)
        requires
            old(self).wf(),
        ensures
            final(self).wf(),
            final(self).history_view() == old(self).history_view(),
            final(self).browsing() is None,
            (final(self).clusters_view(), final(self).cursor_at()) == insert_transition(
                old(self).clusters_view(),
                old(self).cursor_at(),
                c,
            ),
            final(self).text() == old(self).clusters_view().take(
                old(self).cursor_at(),
            ).flatten() + seq![c] + old(self).clusters_view().skip(old(self).cursor_at()).flatten(),
    {
        self.history_index = None;
        let ghost cl = self.clusters_view();
        let ghost cur = self.cursor_at();
        let from: usize = if self.cursor > 0 {
            self.cursor - 1
        } else {
            0
        };
        let mut prev_and_c: String = if self.cursor > 0 {
            self.clusters[self.cursor - 1].clone()
        } else {
            String::new()
        };
        push_char(&mut prev_and_c, c);
        let segs = split_graphemes(prev_and_c.as_str());
        let ghost tail_count = cl.len() - cur;
        let new_clusters = splice_clusters(&self.clusters, from, self.cursor, &segs);
        let segn = segs.len();
        self.clusters = new_clusters;
        let nl = self.clusters.len();
        proof {
            assert(self.clusters.deep_view() == cl.take(from as int) + segs.deep_view() + cl.skip(
                cur,
            ));
            assert(cl.take(from as int).len() == from);
            assert(cl.skip(cur).len() == tail_count);
            assert(self.clusters.deep_view().len() == self.clusters@.len());
            assert(nl == from + segs.deep_view().len() + tail_count);
        }
        self.cursor = nl - (nl - from - segn);
        proof {
            let segv = segs.deep_view();
            assert(segv.len() > 0) by {
                if segv.len() == 0 {
                    assert(segv.flatten().len() == 0);
                }
            }
            if cur > 0 {
                assert(prev_and_c@ == cl[cur - 1].push(c));
                assert(self.clusters_view() =~= cl.take(cur - 1) + segv + cl.skip(cur));
                // the text is the old text with `c` inserted at the cursor
                lemma_flatten_concat(cl.take(cur - 1) + segv, cl.skip(cur));
                lemma_flatten_concat(cl.take(cur - 1), segv);
                assert(cl.take(cur) =~= cl.take(cur - 1).push(cl[cur - 1]));
                cl.take(cur - 1).lemma_flatten_push(cl[cur - 1]);
                assert(segv.flatten() == cl[cur - 1].push(c));
                assert(cl[cur - 1].push(c) =~= cl[cur - 1] + seq![c]);
                assert(self.text() =~= cl.take(cur).flatten() + seq![c] + cl.skip(cur).flatten());
            } else {
                assert(prev_and_c@ =~= seq![c]);
                assert(self.clusters_view() =~= segv + cl);
                lemma_flatten_concat(segv, cl);
                assert(cl.take(0) =~= Seq::<Seq<char>>::empty());
                assert(cl.skip(0) =~= cl);
                assert(cl.take(cur).flatten().len() == 0);
                assert(self.text() =~= cl.take(cur).flatten() + seq![c] + cl.skip(cur).flatten());
            }
        }
    }

    /// Removes the grapheme before the cursor; a no-op at the start.
    pub fn delete_char_before_cursor(&mut self)
        requires
            old(self).wf(),
        ensures
            final(self).wf(),
            final(self).history_view() == old(self).history_view(),
            final(self).browsing() is None,
            (final(self).clusters_view(), final(self).cursor_at()) == delete_before_transition(
                old(self).clusters_view(),
                old(self).cursor_at(),
            ),
    {
        self.history_index = None;
        if self.cursor > 0 {
            let ghost cl = self.clusters_view();
            let ghost cur = self.cursor_at();
            self.clusters.remove(self.cursor - 1);
            self.cursor = self.cursor - 1;
            proof {
                assert(self.clusters_view() =~= cl.remove(cur - 1));
            }
        }
    }

    /// Removes the grapheme after the cursor; a no-op at the end.
    pub fn delete_char_after_cursor(&mut self)
        requires
            old(self).wf(),
        ensures
            final(self).wf(),
            final(self).history_view() == old(self).history_view(),
            final(self).browsing() is None,
            final(self).cursor_at() == old(self).cursor_at(),
            final(self).clusters_view() == if old(self).cursor_at() < old(
                self,
            ).clusters_view().len() {
                old(self).clusters_view().remove(old(self).cursor_at())
            } else {
                old(self).clusters_view()
            },
    {
        self.history_index = None;
        if self.cursor < self.clusters.len() {
            let ghost cl = self.clusters_view();
            let ghost cur = self.cursor_at();
            self.clusters.remove(self.cursor);
            proof {
                assert(self.clusters_view() =~= cl.remove(cur));
            }
        }
    }
}

/// Position reached from `j` by walking left over whitespace clusters.
pub open spec fn skip_white_back(cl: Seq<Seq<char>>, j: int) -> int
    decreases j,
{
    if j > 0 && white_cluster(cl[j - 1]) {
        skip_white_back(cl, j - 1)
    } else {
        j
    }
}

/// Position reached from `j` by walking left over non-whitespace clusters.
pub open spec fn skip_word_back(cl: Seq<Seq<char>>, j: int) -> int
    decreases j,
{
    if j > 0 && !white_cluster(cl[j - 1]) {
        skip_word_back(cl, j - 1)
    } else {
        j
    }
}

/// Start of the word before `cur`: adjacent whitespace is skipped first,
/// then the non-whitespace run before it.
pub open spec fn word_boundary_back(cl: Seq<Seq<char>>, cur: int) -> int {
    skip_word_back(cl, skip_white_back(cl, cur))
}

/// Position reached from `j` by walking right over whitespace clusters.
pub open spec fn skip_white_fwd(cl: Seq<Seq<char>>, j: int) -> int
    decreases cl.len() - j,
{
    if 0 <= j < cl.len() && white_cluster(cl[j]) {
        skip_white_fwd(cl, j + 1)
    } else {
        j
    }
}

/// Position reached from `j` by walking right over non-whitespace clusters.
pub open spec fn skip_word_fwd(cl: Seq<Seq<char>>, j: int) -> int
    decreases cl.len() - j,
{
    if 0 <= j < cl.len() && !white_cluster(cl[j]) {
        skip_word_fwd(cl, j + 1)
    } else {
        j
    }
}

/// End of the deletion range for delete-word-after: adjacent whitespace is
/// skipped first, then the non-whitespace run after it.
pub open spec fn word_boundary_fwd(cl: Seq<Seq<char>>, cur: int) -> int {
    skip_word_fwd(cl, skip_white_fwd(cl, cur))
}

impl SearchState {
    fn scan_word_back(&self) -> (r: usize)
        requires
            self.wf(),
        ensures
            r == word_boundary_back(self.clusters_view(), self.cursor_at()),
            0 <= r <= self.cursor_at(),
    {
        let ghost cl = self.clusters_view();
        let mut j: usize = self.cursor;
        while j > 0 && is_white_cluster(self.clusters[j - 1].as_str())
            invariant
                self.wf(),
                cl == self.clusters_view(),
                0 <= j <= self.cursor_at(),
                skip_white_back(cl, self.cursor_at()) == skip_white_back(cl, j as int),
            decreases j,
        {
            j = j - 1;
        }
        proof {
            assert(skip_white_back(cl, j as int) == j);
        }
        while j > 0 && !is_white_cluster(self.clusters[j - 1].as_str())
            invariant
                self.wf(),
                cl == self.clusters_view(),
                0 <= j <= self.cursor_at(),
                skip_word_back(cl, skip_white_back(cl, self.cursor_at())) == skip_word_back(
                    cl,
                    j as int,
                ),
            decreases j,
        {
            j = j - 1;
        }
        proof {
            assert(skip_word_back(cl, j as int) == j);
        }
        j
    }

    fn scan_word_fwd(&self) -> (r: usize)
        requires
            self.wf(),
        ensures
            r == word_boundary_fwd(self.clusters_view(), self.cursor_at()),
            self.cursor_at() <= r <= self.clusters_view().len(),
    {
        let ghost cl = self.clusters_view();
        let n = self.clusters.len();
        let mut j: usize = self.cursor;
        while j < n && is_white_cluster(self.clusters[j].as_str())
            invariant
                self.wf(),
                cl == self.clusters_view(),
                n == cl.len(),
                self.cursor_at() <= j <= n,
                skip_white_fwd(cl, self.cursor_at()) == skip_white_fwd(cl, j as int),
            decreases n - j,
        {
            j = j + 1;
        }
        proof {
            assert(skip_white_fwd(cl, j as int) == j);
        }
        while j < n && !is_white_cluster(self.clusters[j].as_str())
            invariant
                self.wf(),
                cl == self.clusters_view(),
                n == cl.len(),
                self.cursor_at() <= j <= n,
                skip_word_fwd(cl, skip_white_fwd(cl, self.cursor_at())) == skip_word_fwd(
                    cl,
                    j as int,
                ),
            decreases n - j,
        {
            j = j + 1;
        }
        proof {
            assert(skip_word_fwd(cl, j as int) == j);
        }
        j
    }

    /// Deletes the word before the cursor: adjacent whitespace first, then
    /// the non-whitespace run before it.
    pub fn delete_word_before_cursor(&mut self)
        requires
            old(self).wf(),
        ensures
            final(self).wf(),
            final(self).history_view() == old(self).history_view(),
            final(self).browsing() is None,
            final(self).cursor_at() == word_boundary_back(
                old(self).clusters_view(),
                old(self).cursor_at(),
            ),
            final(self).clusters_view() == old(self).clusters_view().take(
                word_boundary_back(old(self).clusters_view(), old(self).cursor_at()),
            ) + old(self).clusters_view().skip(old(self).cursor_at()),
    {
        self.history_index = None;
        let ghost cl = self.clusters_view();
        let b = self.scan_word_back();
        let empty: Vec<String> = Vec::new();
        let new_clusters = splice_clusters(&self.clusters, b, self.cursor, &empty);
        self.clusters = new_clusters;
        self.cursor = b;
        proof {
            assert(empty.deep_view() =~= Seq::<Seq<char>>::empty());
            assert(self.clusters_view() =~= cl.take(b as int) + cl.skip(old(self).cursor_at()));
        }
    }

    /// Deletes the word after the cursor: adjacent whitespace first, then
    /// the non-whitespace run after it.
    pub fn delete_word_after_cursor(&mut self)
        requires
            old(self).wf(),
        ensures
            final(self).wf(),
            final(self).history_view() == old(self).history_view(),
            final(self).browsing() is None,
            final(self).cursor_at() == old(self).cursor_at(),
            final(self).clusters_view() == old(self).clusters_view().take(
                old(self).cursor_at(),
            ) + old(self).clusters_view().skip(
                word_boundary_fwd(old(self).clusters_view(), old(self).cursor_at()),
            ),
    {
        self.history_index = None;
        let ghost cl = self.clusters_view();
        let e = self.scan_word_fwd();
        let empty: Vec<String> = Vec::new();
        let new_clusters = splice_clusters(&self.clusters, self.cursor, e, &empty);
        self.clusters = new_clusters;
        proof {
            assert(empty.deep_view() =~= Seq::<Seq<char>>::empty());
            assert(self.clusters_view() =~= cl.take(old(self).cursor_at()) + cl.skip(e as int));
        }
    }

    /// Moves the cursor to the start of the word before it.
    pub fn move_cursor_left_word(&mut self)
        requires
            old(self).wf(),
        ensures
            final(self).wf(),
            final(self).clusters_view() == old(self).clusters_view(),
            final(self).history_view() == old(self).history_view(),
            final(self).browsing() == old(self).browsing(),
            final(self).cursor_at() == word_boundary_back(
                old(self).clusters_view(),
                old(self).cursor_at(),
            ),
    {
        let b = self.scan_word_back();
        self.cursor = b;
    }

    /// Moves the cursor right: past the current word, then past the
    /// whitespace after it.
    pub fn move_cursor_right_word(&mut self)
        requires
            old(self).wf(),
        ensures
            final(self).wf(),
            final(self).clusters_view() == old(self).clusters_view(),
            final(self).history_view() == old(self).history_view(),
            final(self).browsing() == old(self).browsing(),
            final(self).cursor_at() == skip_white_fwd(
                old(self).clusters_view(),
                skip_word_fwd(old(self).clusters_view(), old(self).cursor_at()),
            ),
    {
        let ghost cl = self.clusters_view();
        let n = self.clusters.len();
        let mut j: usize = self.cursor;
        while j < n && !is_white_cluster(self.clusters[j].as_str())
            invariant
                self.wf(),
                cl == self.clusters_view(),
                n == cl.len(),
                self.cursor_at() <= j <= n,
                skip_word_fwd(cl, self.cursor_at()) == skip_word_fwd(cl, j as int),
            decreases n - j,
        {
            j = j + 1;
        }
        proof {
            assert(skip_word_fwd(cl, j as int) == j);
        }
        while j < n && is_white_cluster(self.clusters[j].as_str())
            invariant
                self.wf(),
                cl == self.clusters_view(),
                n == cl.len(),
                0 <= j <= n,
                skip_white_fwd(cl, skip_word_fwd(cl, self.cursor_at())) == skip_white_fwd(
                    cl,
                    j as int,
                ),
            decreases n - j,
        {
            j = j + 1;
        }
        proof {
            assert(skip_white_fwd(cl, j as int) == j);
        }
        self.cursor = j;
    }

    /// Sum of the rendered column widths of the graphemes before the
    /// cursor, for placing a terminal cursor.
    pub fn display_width_up_to_cursor(&self) -> (r: usize)
        requires
            self.wf(),
        ensures
            r == width_of(self.clusters_view().take(self.cursor_at()).flatten()),
    {
        let mut prefix = String::new();
        let mut i: usize = 0;
        while i < self.cursor
            invariant
                self.wf(),
                0 <= i <= self.cursor_at(),
                prefix@ == self.clusters_view().take(i as int).flatten(),
            decreases self.cursor_at() - i,
        {
            prefix.append(self.clusters[i].as_str());
            proof {
                let cl = self.clusters_view();
                assert(cl.take(i + 1) =~= cl.take(i as int) + seq![cl[i as int]]);
                lemma_flatten_concat(cl.take(i as int), seq![cl[i as int]]);
                seq![cl[i as int]].lemma_flatten_one_element();
            }
            i = i + 1;
        }
        str_width(prefix.as_str())
    }
}

/// `post` is `pre` with history entry `k` loaded into the query: the
/// entry's graphemes become the buffer and the cursor sits at its end.
pub open spec fn entry_loaded(pre: SearchState, post: SearchState, k: int) -> bool {
    &&& post.clusters_view() == graphemes_of(pre.history_view()[k])
    &&& post.text() == pre.history_view()[k]
    &&& post.cursor_at() == graphemes_of(pre.history_view()[k]).len()
    &&& post.browsing() == Some(k as usize)
    &&& post.history_view() == pre.history_view()
}

impl SearchState {
    /// Shell-style history recall, one step towards older entries.  From
    /// outside browsing it jumps to the newest entry; at the oldest entry
    /// it is a no-op.  A loaded entry replaces the query, cursor at its
    /// end.
    pub fn navigate_history_up(&mut self)
        requires
            old(self).wf(),
        ensures
            final(self).wf(),
            final(self).history_view() == old(self).history_view(),
            match old(self).browsing() {
                None => if old(self).history_view().len() == 0 {
                    *final(self) == *old(self)
                } else {
                    entry_loaded(*old(self), *final(self), old(self).history_view().len() - 1)
                },
                Some(i) => if i > 0 {
                    entry_loaded(*old(self), *final(self), i - 1)
                } else {
                    *final(self) == *old(self)
                },
            },
    {
        let target: usize = match self.history_index {
            None => {
                if self.history.len() == 0 {
                    return ;
                }
                self.history.len() - 1
            },
            Some(i) => {
                if i == 0 {
                    return ;
                }
                i - 1
            },
        };
        let entry = self.history[target].clone();
        let segs = split_graphemes(entry.as_str());
        self.cursor = segs.len();
        self.clusters = segs;
        self.history_index = Some(target);
        proof {
            assert(entry@ == old(self).history_view()[target as int]);
        }
    }

    /// Shell-style history recall, one step towards newer entries.  Past
    /// the newest entry it leaves browsing and clears the query.
    pub fn navigate_history_down(&mut self)
        requires
            old(self).wf(),
        ensures
            final(self).wf(),
            final(self).history_view() == old(self).history_view(),
            match old(self).browsing() {
                None => *final(self) == *old(self),
                Some(i) => if i + 1 < old(self).history_view().len() {
                    entry_loaded(*old(self), *final(self), i + 1)
                } else {
                    final(self).clusters_view() == Seq::<Seq<char>>::empty()
                        && final(self).cursor_at() == 0 && final(self).browsing() is None
                },
            },
    {
        let i = match self.history_index {
            None => {
                return ;
            },
            Some(i) => i,
        };
        if i + 1 < self.history.len() {
            let entry = self.history[i + 1].clone();
            let segs = split_graphemes(entry.as_str());
            self.cursor = segs.len();
            self.clusters = segs;
            self.history_index = Some(i + 1);
            proof {
                assert(entry@ == old(self).history_view()[i + 1]);
            }
        } else {
            self.history_index = None;
            self.clusters.clear();
            self.cursor = 0;
            proof {
                assert(self.clusters_view() =~= Seq::<Seq<char>>::empty());
            }
        }
    }

    /// Records the current query in the history: a no-op when the query
    /// is empty; otherwise any equal entry moves to the most-recent
    /// position and the oldest entry is evicted past the cap.
    pub fn save_to_history(&mut self)
        requires
            old(self).wf(),
        ensures
            final(self).wf(),
            final(self).clusters_view() == old(self).clusters_view(),
            final(self).cursor_at() == old(self).cursor_at(),
            final(self).browsing() == old(self).browsing(),
            final(self).history_view() == if old(self).text().len() == 0 {
                old(self).history_view()
            } else {
                history_after_save(old(self).history_view(), old(self).text())
            },
            old(self).text().len() > 0 ==> final(self).history_view().last() == old(self).text(),
    {
        let q = self.current_query();
        if q.as_str().is_empty() {
            return ;
        }
        let ghost h = self.history_view();
        let ghost qv = q@;
        proof {
            lemma_hist_find(h, qv);
        }
        let n = self.history.len();
        let mut pos: usize = 0;
        while pos < n && !crate::text::str_eq(self.history[pos].as_str(), q.as_str())
            invariant
                old(self).wf(),
                *self == *old(self),
                n == h.len(),
                h == self.history_view(),
                qv == q@,
                0 <= pos <= n,
                forall|m: int| 0 <= m < pos ==> #[trigger] h[m] != qv,
                hist_find(h, qv) <= h.len(),
                forall|m: int| 0 <= m < hist_find(h, qv) ==> #[trigger] h[m] != qv,
                hist_find(h, qv) < h.len() ==> h[hist_find(h, qv) as int] == qv,
            decreases n - pos,
        {
            pos = pos + 1;
        }
        proof {
            if pos < n {
                if pos < hist_find(h, qv) {
                    assert(h[pos as int] != qv);
                }
                if hist_find(h, qv) < pos {
                    assert(h[hist_find(h, qv) as int] != qv);
                }
            } else {
                if hist_find(h, qv) < n {
                    assert(h[hist_find(h, qv) as int] != qv);
                }
            }
            assert(pos == hist_find(h, qv));
        }
        let ghost h1 = if pos < n {
            h.remove(pos as int)
        } else {
            h
        };
        if pos < n {
            self.history.remove(pos);
            proof {
                assert(self.history.deep_view() =~~= h1);
            }
        }
        proof {
            // the removed position held the only entry equal to the query
            assert forall|m: int| 0 <= m < h1.len() implies #[trigger] h1[m] != qv by {
                if pos < n {
                    if m < pos {
                        assert(h1[m] == h[m]);
                    } else {
                        assert(h1[m] == h[m + 1]);
                    }
                }
            }
        }
        self.history.push(q);
        proof {
            assert(self.history.deep_view() =~~= h1.push(qv));
        }
        if self.history.len() > MAX_HISTORY_SIZE {
            let ghost h2 = self.history.deep_view();
            self.history.remove(0);
            proof {
                assert(self.history.deep_view() =~~= h2.subrange(1, h2.len() as int));
            }
        }
        proof {
            assert(old(self).text() == qv);
            assert(self.history_view() == history_after_save(h, qv));
            let hv = self.history_view();
            assert forall|i: int, j: int|
                0 <= i < j < hv.len() implies #[trigger] hv[i] != #[trigger] hv[j] by {
                if j + 1 == hv.len() && hv.len() == h1.len() + 1 {
                    assert(hv[j] == qv);
                }
            }
        }
    }
}

/// `post` is `pre` with `c` typed at the cursor.
pub open spec fn insert_rel(pre: SearchState, post: SearchState, c: char) -> bool {
    &&& (post.clusters_view(), post.cursor_at()) == insert_transition(
        pre.clusters_view(),
        pre.cursor_at(),
        c,
    )
    &&& post.history_view() == pre.history_view()
}

/// `post` is `pre` with the query cleared and history browsing left.
pub open spec fn cleared_rel(pre: SearchState, post: SearchState) -> bool {
    &&& post.clusters_view() == Seq::<Seq<char>>::empty()
    &&& post.cursor_at() == 0
    &&& post.history_view() == pre.history_view()
    &&& post.browsing() is None
}

/// `post` is `pre` after one step of history recall towards older
/// entries.
pub open spec fn history_up_rel(pre: SearchState, post: SearchState) -> bool {
    &&& post.history_view() == pre.history_view()
    &&& match pre.browsing() {
        None => if pre.history_view().len() == 0 {
            post == pre
        } else {
            entry_loaded(pre, post, pre.history_view().len() - 1)
        },
        Some(i) => if i > 0 {
            entry_loaded(pre, post, i - 1)
        } else {
            post == pre
        },
    }
}

/// `post` is `pre` after one step of history recall towards newer
/// entries; past the newest entry the query is cleared.
pub open spec fn history_down_rel(pre: SearchState, post: SearchState) -> bool {
    &&& post.history_view() == pre.history_view()
    &&& match pre.browsing() {
        None => post == pre,
        Some(i) => if i + 1 < pre.history_view().len() {
            entry_loaded(pre, post, i + 1)
        } else {
            post.clusters_view() == Seq::<Seq<char>>::empty() && post.cursor_at() == 0
                && post.browsing() is None
        },
    }
}

/// Law: a well-formed editor's cursor always lies between 0 and the
/// grapheme count of the query, and every editor operation preserves
/// well-formedness, so any finite sequence of operations from the empty
/// editor keeps the cursor in bounds.
pub proof fn lemma_cursor_bound(ed: &SearchState)
    requires
        ed.wf(),
    ensures
        0 <= ed.cursor_at() <= ed.clusters_view().len(),
{
}

/// A well-formed editor's text is empty exactly when it has no graphemes.
pub proof fn lemma_text_empty(ed: &SearchState)
    requires
        ed.wf(),
    ensures
        (ed.text().len() == 0) <==> (ed.clusters_view().len() == 0),
{
    let cl = ed.clusters_view();
    if cl.len() > 0 {
        cl.lemma_flatten_and_flatten_alt_are_equivalent();
        cl.lemma_flatten_length_ge_single_element_length(0);
    } else {
        assert(cl.flatten() =~= Seq::<char>::empty());
    }
}

/// Law: submitting a query deduplicates and caps the history.  The
/// query lands at the most-recent position and occurs nowhere else, the
/// size cap holds, and submitting the same query again changes nothing.
pub proof fn lemma_history_dedup(h: Seq<Seq<char>>, q: Seq<char>)
    requires
        forall|i: int, j: int| 0 <= i < j < h.len() ==> #[trigger] h[i] != #[trigger] h[j],
        h.len() <= MAX_HISTORY_SIZE,
    ensures
        ({
            let r = history_after_save(h, q);
            &&& r.len() <= MAX_HISTORY_SIZE
            &&& r.len() > 0
            &&& r.last() == q
            &&& forall|i: int| 0 <= i < r.len() - 1 ==> #[trigger] r[i] != q
            &&& history_after_save(r, q) == r
        }),
{
    lemma_hist_find(h, q);
    let f = hist_find(h, q) as int;
    let h1 = if f < h.len() {
        h.remove(f)
    } else {
        h
    };
    assert forall|i: int| 0 <= i < h1.len() implies #[trigger] h1[i] != q by {
        if f < h.len() {
            if i < f {
                assert(h1[i] == h[i]);
            } else {
                assert(h1[i] == h[i + 1]);
                if h[i + 1] == q {
                    assert(h[f] == q);
                }
            }
        }
    }
    let h2 = h1.push(q);
    let r = history_after_save(h, q);
    assert forall|i: int| 0 <= i < r.len() - 1 implies #[trigger] r[i] != q by {
        if h2.len() > MAX_HISTORY_SIZE {
            assert(r[i] == h2[i + 1]);
        } else {
            assert(r[i] == h1[i]);
        }
    }
    assert(r.last() == q);
    // saving the same query again moves it from last to last: a no-op
    lemma_hist_find(r, q);
    let f2 = hist_find(r, q) as int;
    if f2 < r.len() - 1 {
        assert(r[f2] != q);
    }
    if f2 >= r.len() {
        assert(r[r.len() - 1] != q);
    }
    assert(f2 == r.len() - 1);
    assert(r.remove(r.len() - 1) =~= r.drop_last());
    assert(r.drop_last().push(q) =~= r);
    assert(history_after_save(r, q) == r);
}

/// Law: typing a character that forms a grapheme cluster of its own and
/// then deleting one grapheme backwards restores the query and the cursor
/// exactly.
pub proof fn lemma_char_round_trip(cl: Seq<Seq<char>>, cur: int, c: char)
    requires
        0 <= cur <= cl.len(),
        cur > 0 ==> graphemes_of(cl[cur - 1].push(c)) == seq![cl[cur - 1], seq![c]],
        cur == 0 ==> graphemes_of(seq![c]) == seq![seq![c]],
    ensures
        ({
            let s1 = insert_transition(cl, cur, c);
            let s2 = delete_before_transition(s1.0, s1.1);
            s2.0 == cl && s2.1 == cur
        }),
{
    let s1 = insert_transition(cl, cur, c);
    if cur > 0 {
        assert(s1.0 =~= cl.take(cur - 1) + seq![cl[cur - 1], seq![c]] + cl.skip(cur));
        assert(s1.1 == cur + 1);
        assert(s1.0.remove(cur) =~= cl);
    } else {
        assert(s1.0 =~= seq![seq![c]] + cl);
        assert(s1.1 == 1);
        assert(s1.0.remove(0) =~= cl);
    }
}

/// Law: typing the two characters of a two-character grapheme cluster
/// (a combining-accent pair, a flag emoji) and then deleting one grapheme
/// backwards removes the whole cluster, restoring the query and the
/// cursor exactly.
pub proof fn lemma_grapheme_round_trip(cl: Seq<Seq<char>>, cur: int, c1: char, c2: char)
    requires
        0 <= cur <= cl.len(),
        cur > 0 ==> graphemes_of(cl[cur - 1].push(c1)) == seq![cl[cur - 1], seq![c1]],
        cur == 0 ==> graphemes_of(seq![c1]) == seq![seq![c1]],
        graphemes_of(seq![c1].push(c2)) == seq![seq![c1, c2]],
    ensures
        ({
            let s1 = insert_transition(cl, cur, c1);
            let s2 = insert_transition(s1.0, s1.1, c2);
            let s3 = delete_before_transition(s2.0, s2.1);
            s3.0 == cl && s3.1 == cur
        }),
{
    let s1 = insert_transition(cl, cur, c1);
    if cur > 0 {
        assert(s1.0 =~= cl.take(cur - 1) + seq![cl[cur - 1], seq![c1]] + cl.skip(cur));
        assert(s1.1 == cur + 1);
    } else {
        assert(s1.0 =~= seq![seq![c1]] + cl);
        assert(s1.1 == 1);
    }
    assert(s1.0[s1.1 - 1] == seq![c1]);
    let s2 = insert_transition(s1.0, s1.1, c2);
    assert(seq![c1].push(c2) =~= seq![c1, c2]);
    assert(graphemes_of(s1.0[s1.1 - 1].push(c2)) == seq![seq![c1, c2]]);
    assert(s2.0 =~= s1.0.take(s1.1 - 1) + seq![seq![c1, c2]] + s1.0.skip(s1.1));
    assert(s2.1 == s1.1);
    let s3 = delete_before_transition(s2.0, s2.1);
    assert(s3.0 =~= cl);
    assert(s3.1 == cur);
}

} // verus!
