//! Fetch options: the mapping from filter keys to filter values that the
//! external fetch callback consumes, and the parser that builds it from
//! the raw search-bar text.
//!
//! A raw query is split on whitespace.  A token of the form `@key=value`
//! (splitting at the first `=`) sets a filter, later duplicates winning;
//! all other tokens are rejoined with single spaces and stored under the
//! reserved key `query`.

use vstd::prelude::*;
use vstd::string::*;
use crate::text::{
    find_char, find_idx, join_char, join_strings, split_by, split_char, split_white,
    split_whitespace_tokens, str_eq, substr,
};

verus! {

/// The mapping described by a key/value entry list, later entries
/// overwriting earlier ones.
pub open spec fn entries_map(es: Seq<(Seq<char>, Seq<char>)>) -> Map<Seq<char>, Seq<char>>
    decreases es.len(),
{
    if es.len() == 0 {
        Map::empty()
    } else {
        entries_map(es.drop_last()).insert(es.last().0, es.last().1)
    }
}

pub open spec fn unique_keys(es: Seq<(Seq<char>, Seq<char>)>) -> bool {
    forall|i: int, j: int|
        0 <= i < j < es.len() ==> (#[trigger] es[i]).0 != (#[trigger] es[j]).0
}

proof fn lemma_entries_map_lookup(es: Seq<(Seq<char>, Seq<char>)>, k: Seq<char>)
    ensures
        entries_map(es).contains_key(k) <==> exists|i: int|
            0 <= i < es.len() && (#[trigger] es[i]).0 == k,
        forall|i: int|
            0 <= i < es.len() && (#[trigger] es[i]).0 == k && unique_keys(es) ==> entries_map(es)[k]
                == es[i].1,
    decreases es.len(),
{
    if es.len() > 0 {
        lemma_entries_map_lookup(es.drop_last(), k);
        let last = es.last();
        if entries_map(es).contains_key(k) {
            if last.0 == k {
                assert(es[es.len() - 1].0 == k);
            } else {
                let i = choose|i: int|
                    0 <= i < es.drop_last().len() && (#[trigger] es.drop_last()[i]).0 == k;
                assert(es[i].0 == k);
            }
        }
        if exists|i: int| 0 <= i < es.len() && (#[trigger] es[i]).0 == k {
            let i = choose|i: int| 0 <= i < es.len() && (#[trigger] es[i]).0 == k;
            if i < es.len() - 1 {
                assert(es.drop_last()[i].0 == k);
            }
            assert(entries_map(es).contains_key(k));
        }
        assert forall|i: int|
            0 <= i < es.len() && (#[trigger] es[i]).0 == k && unique_keys(es) implies entries_map(
            es,
        )[k] == es[i].1 by {
            if i == es.len() - 1 {
            } else {
                assert(es.drop_last()[i].0 == k);
                assert(unique_keys(es.drop_last()));
                assert(es[es.len() - 1].0 != k);
            }
        }
    }
}

proof fn lemma_entries_map_push(es: Seq<(Seq<char>, Seq<char>)>, k: Seq<char>, v: Seq<char>)
    ensures
        entries_map(es.push((k, v))) == entries_map(es).insert(k, v),
{
    assert(es.push((k, v)).drop_last() =~= es);
}

proof fn lemma_entries_map_update(es: Seq<(Seq<char>, Seq<char>)>, i: int, v: Seq<char>)
    requires
        unique_keys(es),
        0 <= i < es.len(),
    ensures
        entries_map(es.update(i, (es[i].0, v))) =~= entries_map(es).insert(es[i].0, v),
    decreases es.len(),
{
    let es2 = es.update(i, (es[i].0, v));
    if i == es.len() - 1 {
        assert(es2.drop_last() =~= es.drop_last());
        assert(es2.last() == (es[i].0, v));
        assert(entries_map(es2) =~= entries_map(es).insert(es[i].0, v));
    } else {
        assert(unique_keys(es.drop_last()));
        assert(es.drop_last()[i] == es[i]);
        lemma_entries_map_update(es.drop_last(), i, v);
        assert(es2.drop_last() =~= es.drop_last().update(i, (es[i].0, v)));
        assert(es2.last() == es.last());
        assert(es[es.len() - 1].0 != es[i].0);
        assert(entries_map(es2) =~= entries_map(es).insert(es[i].0, v));
    }
}

/// Options handed to the fetch callback: unique filter keys with their
/// values.
#[derive(Clone)]
pub struct FetchOptions {
    entries: Vec<(String, String)>,
}

impl FetchOptions {
    /// The entries as character sequences, in storage order.
    pub closed spec fn entries_view(&self) -> Seq<(Seq<char>, Seq<char>)> {
        self.entries@.map_values(|e: (String, String)| (e.0@, e.1@))
    }

    /// The key-to-value mapping these options denote.
    pub open spec fn as_map(&self) -> Map<Seq<char>, Seq<char>> {
        entries_map(self.entries_view())
    }

    /// Keys are stored at most once.
    pub closed spec fn wf(&self) -> bool {
        unique_keys(self.entries_view())
    }

    /// Empty options.
    pub fn new() -> (r: FetchOptions)
        ensures
            r.wf(),
            r.as_map() == Map::<Seq<char>, Seq<char>>::empty(),
            r.entries_view() == Seq::<(Seq<char>, Seq<char>)>::empty(),
    {
        let r = FetchOptions { entries: Vec::new() };
        proof {
            assert(r.entries_view() =~= Seq::<(Seq<char>, Seq<char>)>::empty());
        }
        r
    }

    /// Number of stored filters.
    pub fn len(&self) -> (r: usize)
        ensures
            r == self.entries_view().len(),
    {
        self.entries.len()
    }

    /// Whether any filter is set.
    pub fn is_empty(&self) -> (r: bool)
        ensures
            r == (self.entries_view().len() == 0),
            r == (self.as_map() =~= Map::<Seq<char>, Seq<char>>::empty()),
    {
        let r = self.entries.len() == 0;
        proof {
            let es = self.entries_view();
            if es.len() > 0 {
                assert(entries_map(es).contains_key(es.last().0));
            }
        }
        r
    }

    /// A copy whose contract is known, unlike the derived `Clone`.
    pub fn duplicate(&self) -> (r: FetchOptions)
        ensures
            r.entries_view() == self.entries_view(),
            r.as_map() == self.as_map(),
            r.wf() == self.wf(),
    {
        let mut entries: Vec<(String, String)> = Vec::new();
        let mut i: usize = 0;
        while i < self.entries.len()
            invariant
                0 <= i <= self.entries@.len(),
                entries@.len() == i,
                forall|m: int|
                    0 <= m < i ==> (#[trigger] entries@[m]).0@ == self.entries@[m].0@ && entries@[
                        m].1@ == self.entries@[m].1@,
            decreases self.entries@.len() - i,
        {
            let k = self.entries[i].0.clone();
            let v = self.entries[i].1.clone();
            entries.push((k, v));
            i = i + 1;
        }
        let r = FetchOptions { entries };
        proof {
            assert(r.entries_view() =~= self.entries_view());
        }
        r
    }

    /// Stores `value` under `key`, overwriting any earlier value.
    pub fn insert_option(&mut self, key: String, value: String)
        requires
            old(self).wf(),
        ensures
            final(self).wf(),
            final(self).as_map() == old(self).as_map().insert(key@, value@),
    {
        let ghost es = self.entries_view();
        let n = self.entries.len();
        let mut i: usize = 0;
        while i < n
            invariant
                old(self).wf(),
                *self == *old(self),
                es == self.entries_view(),
                n == es.len(),
                0 <= i <= n,
                forall|m: int| 0 <= m < i ==> (#[trigger] es[m]).0 != key@,
            decreases n - i,
        {
            if str_eq(self.entries[i].0.as_str(), key.as_str()) {
                let k = self.entries[i].0.clone();
                self.entries.set(i, (k, value));
                proof {
                    assert(self.entries_view() =~= es.update(i as int, (es[i as int].0, value@)));
                    lemma_entries_map_update(es, i as int, value@);
                    assert(self.as_map() =~= old(self).as_map().insert(key@, value@));
                }
                return ;
            }
            i = i + 1;
        }
        self.entries.push((key, value));
        proof {
            assert(self.entries_view() =~= es.push((key@, value@)));
            lemma_entries_map_push(es, key@, value@);
        }
    }

    /// The value stored under `key`, if any.
    pub fn get_value(&self, key: &str) -> (r: Option<&String>)
        requires
            self.wf(),
        ensures
            match r {
                Some(v) => self.as_map().contains_key(key@) && v@ == self.as_map()[key@],
                None => !self.as_map().contains_key(key@),
            },
    {
        proof {
            lemma_entries_map_lookup(self.entries_view(), key@);
        }
        let ghost es = self.entries_view();
        let n = self.entries.len();
        let mut i: usize = 0;
        while i < n
            invariant
                self.wf(),
                es == self.entries_view(),
                n == es.len(),
                0 <= i <= n,
                forall|m: int| 0 <= m < i ==> (#[trigger] es[m]).0 != key@,
                entries_map(es).contains_key(key@) <==> exists|m: int|
                    0 <= m < es.len() && (#[trigger] es[m]).0 == key@,
                forall|m: int|
                    0 <= m < es.len() && (#[trigger] es[m]).0 == key@ ==> entries_map(es)[key@]
                        == es[m].1,
            decreases n - i,
        {
            if str_eq(self.entries[i].0.as_str(), key) {
                proof {
                    assert(es[i as int] == (self.entries@[i as int].0@, self.entries@[i as int].1@));
                    assert(es[i as int].0 == key@);
                    assert(entries_map(es).contains_key(key@));
                    assert(entries_map(es)[key@] == es[i as int].1);
                }
                return Some(&self.entries[i].1);
            }
            i = i + 1;
        }
        None
    }

    /// The value stored under `key`, as a string slice.
    pub fn parse_str<'a>(&'a self, key: &str) -> (r: Option<&'a str>)
        requires
            self.wf(),
        ensures
            match r {
                Some(v) => self.as_map().contains_key(key@) && v@ == self.as_map()[key@],
                None => !self.as_map().contains_key(key@),
            },
    {
        match self.get_value(key) {
            Some(v) => Some(v.as_str()),
            None => None,
        }
    }

    /// Parses the value stored under `key` with the type's `FromStr`.
    pub fn parse<T: core::str::FromStr>(&self, key: &str) -> (r: Option<T>)
        requires
            self.wf(),
        ensures
            r is Some ==> self.as_map().contains_key(key@),
    {
        match self.get_value(key) {
            Some(v) => parse_from_str(v.as_str()),
            None => None,
        }
    }

    /// Parses the comma-separated value stored under `key`; `None` when
    /// the key is absent or any element fails to parse.
    pub fn parse_list<T: core::str::FromStr>(&self, key: &str) -> (r: Option<Vec<T>>)
        requires
            self.wf(),
        ensures
            r is Some ==> self.as_map().contains_key(key@),
            r matches Some(l) ==> l@.len() == split_by(self.as_map()[key@], ',').len(),
    {
        let v = match self.get_value(key) {
            Some(v) => v,
            None => {
                return None;
            },
        };
        let parts = split_char(v.as_str(), ',');
        let mut out: Vec<T> = Vec::new();
        let mut i: usize = 0;
        while i < parts.len()
            invariant
                0 <= i <= parts@.len(),
                out@.len() == i,
            decreases parts@.len() - i,
        {
            match parse_from_str::<T>(parts[i].as_str()) {
                Some(x) => out.push(x),
                None => {
                    return None;
                },
            }
            i = i + 1;
        }
        proof {
            assert(parts.deep_view().len() == parts@.len());
        }
        Some(out)
    }

    /// The stored entries, for rendering a status line.
    pub fn entries(&self) -> (r: &Vec<(String, String)>)
        ensures
            r@.len() == self.entries_view().len(),
            forall|i: int|
                0 <= i < r@.len() ==> ((#[trigger] r@[i]).0@, r@[i].1@) == self.entries_view()[i],
    {
        &self.entries
    }
}

/// Relies on str::parse, which dispatches to the type's FromStr
/// implementation; nothing is known of the result.
#[verifier::external_body]
fn parse_from_str<T: core::str::FromStr>(s: &str) -> (r: Option<T>) {
    s.parse::<T>().ok()
}

/// Whether a token is a structured filter: `@` followed by a key, `=`,
/// and a value (the key may be empty; the split is at the first `=`).
pub open spec fn opt_token(t: Seq<char>) -> bool {
    t.len() >= 1 && t[0] == '@' && find_idx(t.drop_first(), '=') < t.len() - 1
}

pub open spec fn token_key(t: Seq<char>) -> Seq<char> {
    t.subrange(1, 1 + find_idx(t.drop_first(), '=') as int)
}

pub open spec fn token_value(t: Seq<char>) -> Seq<char> {
    t.subrange(2 + find_idx(t.drop_first(), '=') as int, t.len() as int)
}

/// The filter map described by a token list: each `@key=value` token sets
/// its key, later tokens overwriting earlier ones.
pub open spec fn options_of_tokens(toks: Seq<Seq<char>>) -> Map<Seq<char>, Seq<char>>
    decreases toks.len(),
{
    if toks.len() == 0 {
        Map::empty()
    } else {
        let m = options_of_tokens(toks.drop_last());
        if opt_token(toks.last()) {
            m.insert(token_key(toks.last()), token_value(toks.last()))
        } else {
            m
        }
    }
}

/// The non-filter tokens, in their original relative order.
pub open spec fn free_words(toks: Seq<Seq<char>>) -> Seq<Seq<char>>
    decreases toks.len(),
{
    if toks.len() == 0 {
        seq![]
    } else if opt_token(toks.last()) {
        free_words(toks.drop_last())
    } else {
        free_words(toks.drop_last()).push(toks.last())
    }
}

pub open spec fn query_key() -> Seq<char> {
    seq!['q', 'u', 'e', 'r', 'y']
}

/// The full parse of a raw query: its `@key=value` filters, and the free
/// words rejoined with single spaces under the key `query` (absent when
/// there are none).
pub open spec fn fetch_options_spec(raw: Seq<char>) -> Map<Seq<char>, Seq<char>> {
    let toks = split_white(raw);
    let m = options_of_tokens(toks);
    let free = free_words(toks);
    if free.len() > 0 {
        m.insert(query_key(), join_char(free, ' '))
    } else {
        m
    }
}

/// Parses the search bar's raw text into fetch options: for every string
/// of interleaved `@key=value` tokens and free words, the result maps
/// each filter key to its last value, and `query` to the free words
/// rejoined with single spaces in their original order (absent when there
/// are none).
pub fn parse_fetch_options(raw: &str) -> (r: FetchOptions)
    ensures
        r.wf(),
        r.as_map() == fetch_options_spec(raw@),
{
    let toks = split_whitespace_tokens(raw);
    let ghost tv = toks.deep_view();
    let mut opts = FetchOptions::new();
    let mut free: Vec<String> = Vec::new();
    let mut i: usize = 0;
    while i < toks.len()
        invariant
            tv == toks.deep_view(),
            tv == split_white(raw@),
            0 <= i <= tv.len(),
            toks@.len() == tv.len(),
            opts.wf(),
            opts.as_map() == options_of_tokens(tv.take(i as int)),
            free.deep_view() == free_words(tv.take(i as int)),
        decreases tv.len() - i,
    {
        let tok = &toks[i];
        let ghost t = tv[i as int];
        proof {
            assert(tok@ == t);
            assert(tv.take(i + 1).drop_last() =~= tv.take(i as int));
            assert(tv.take(i + 1).last() == t);
        }
        let n = tok.unicode_len();
        let mut handled = false;
        if n >= 1 {
            if tok.as_str().get_char(0) == '@' {
                let rest = substr(tok.as_str(), 1, n);
                proof {
                    assert(rest@ =~= t.drop_first());
                }
                match find_char(rest.as_str(), '=') {
                    Some(p) => {
                        let key = substr(tok.as_str(), 1, 1 + p);
                        let value = substr(tok.as_str(), 2 + p, n);
                        proof {
                            assert(opt_token(t));
                            assert(key@ == token_key(t));
                            assert(value@ == token_value(t));
                        }
                        opts.insert_option(key, value);
                        handled = true;
                    },
                    None => {},
                }
            }
        }
        if !handled {
            proof {
                assert(!opt_token(t));
            }
            free.push(tok.clone());
            proof {
                assert(free.deep_view() =~~= free_words(tv.take(i + 1)));
            }
        }
        i = i + 1;
    }
    proof {
        assert(tv.take(tv.len() as int) =~= tv);
    }
    if free.len() > 0 {
        let joined = join_strings(&free, ' ');
        let mut qk = String::new();
        crate::text::push_char(&mut qk, 'q');
        crate::text::push_char(&mut qk, 'u');
        crate::text::push_char(&mut qk, 'e');
        crate::text::push_char(&mut qk, 'r');
        crate::text::push_char(&mut qk, 'y');
        proof {
            assert(qk@ =~= query_key());
            assert(free.deep_view().len() > 0);
        }
        opts.insert_option(qk, joined);
    } else {
        proof {
            assert(free.deep_view().len() == 0);
        }
    }
    opts
}

} // verus!
