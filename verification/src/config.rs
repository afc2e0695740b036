//! Configuration values and their scope resolution.
//!
//! A configuration holds string values under slash-separated paths, in
//! three scopes: global, per host, and per remote (host plus repository
//! path).  A lookup walks the path hierarchy — `pr/create/editor`, then
//! `pr/editor`, then `editor` — within a scope, and the effective value
//! takes the first hit in remote, then host, then global order.

use vstd::prelude::*;
use vstd::string::*;
use crate::git_url::GitRemoteData;
use crate::text::{
    dec_str, is_uint_str, join_char, join_strings_prefix, parse_u32_str, push_char, split_by,
    split_char, str_eq, str_eq_ignore_ascii_case, str_ieq_spec, trim_spec, trim_str, u32_to_string,
    uint_val,
};

verus! {

/// First value stored under `k` in an association list.
pub open spec fn assoc_find<V>(es: Seq<(Seq<char>, V)>, k: Seq<char>) -> Option<V>
    decreases es.len(),
{
    if es.len() == 0 {
        None
    } else if es[0].0 == k {
        Some(es[0].1)
    } else {
        assoc_find(es.drop_first(), k)
    }
}

/// No key occurs twice.
pub open spec fn unique_assoc<V>(es: Seq<(Seq<char>, V)>) -> bool {
    forall|i: int, j: int|
        0 <= i < j < es.len() ==> (#[trigger] es[i]).0 != (#[trigger] es[j]).0
}

proof fn lemma_assoc_find_at<V>(es: Seq<(Seq<char>, V)>, k: Seq<char>, i: int)
    requires
        0 <= i < es.len(),
        es[i].0 == k,
        forall|j: int| 0 <= j < i ==> (#[trigger] es[j]).0 != k,
    ensures
        assoc_find(es, k) == Some(es[i].1),
    decreases i,
{
    if i > 0 {
        assert(es[0].0 != k);
        assert(es.drop_first()[i - 1] == es[i]);
        assert forall|j: int| 0 <= j < i - 1 implies (#[trigger] es.drop_first()[j]).0 != k by {
            assert(es.drop_first()[j] == es[j + 1]);
        }
        lemma_assoc_find_at(es.drop_first(), k, i - 1);
    }
}

proof fn lemma_assoc_find_none<V>(es: Seq<(Seq<char>, V)>, k: Seq<char>)
    requires
        forall|j: int| 0 <= j < es.len() ==> (#[trigger] es[j]).0 != k,
    ensures
        assoc_find(es, k) is None,
    decreases es.len(),
{
    if es.len() > 0 {
        assert forall|j: int|
            0 <= j < es.drop_first().len() implies (#[trigger] es.drop_first()[j]).0 != k by {
            assert(es.drop_first()[j] == es[j + 1]);
        }
        lemma_assoc_find_none(es.drop_first(), k);
    }
}

proof fn lemma_assoc_update<V>(es: Seq<(Seq<char>, V)>, i: int, v: V)
    requires
        0 <= i < es.len(),
        forall|j: int| 0 <= j < i ==> (#[trigger] es[j]).0 != es[i].0,
    ensures
        forall|q: Seq<char>|
            #[trigger] assoc_find(es.update(i, (es[i].0, v)), q) == if q == es[i].0 {
                Some(v)
            } else {
                assoc_find(es, q)
            },
    decreases i,
{
    let es2 = es.update(i, (es[i].0, v));
    if i == 0 {
        assert forall|q: Seq<char>|
            #[trigger] assoc_find(es2, q) == if q == es[i].0 {
                Some(v)
            } else {
                assoc_find(es, q)
            } by {
            assert(es2.drop_first() =~= es.drop_first());
            assert(es2[0] == (es[0].0, v));
        }
    } else {
        assert forall|j: int|
            0 <= j < i - 1 implies (#[trigger] es.drop_first()[j]).0 != es.drop_first()[i - 1].0 by {
            assert(es.drop_first()[j] == es[j + 1]);
            assert(es.drop_first()[i - 1] == es[i]);
        }
        assert(es.drop_first()[i - 1] == es[i]);
        lemma_assoc_update(es.drop_first(), i - 1, v);
        assert forall|q: Seq<char>|
            #[trigger] assoc_find(es2, q) == if q == es[i].0 {
                Some(v)
            } else {
                assoc_find(es, q)
            } by {
            assert(es2.drop_first() =~= es.drop_first().update(i - 1, (es[i].0, v)));
            assert(es2[0] == es[0]);
            assert(es[0].0 != es[i].0);
            assert(assoc_find(es.drop_first().update(i - 1, (es.drop_first()[i - 1].0, v)), q)
                == if q == es[i].0 {
                Some(v)
            } else {
                assoc_find(es.drop_first(), q)
            });
        }
    }
}

proof fn lemma_assoc_push<V>(es: Seq<(Seq<char>, V)>, k: Seq<char>, v: V)
    requires
        forall|j: int| 0 <= j < es.len() ==> (#[trigger] es[j]).0 != k,
    ensures
        forall|q: Seq<char>|
            #[trigger] assoc_find(es.push((k, v)), q) == if q == k {
                Some(v)
            } else {
                assoc_find(es, q)
            },
    decreases es.len(),
{
    if es.len() == 0 {
        assert forall|q: Seq<char>|
            #[trigger] assoc_find(es.push((k, v)), q) == if q == k {
                Some(v)
            } else {
                assoc_find(es, q)
            } by {
            assert(es.push((k, v))[0] == (k, v));
            assert(es.push((k, v)).drop_first() =~= Seq::<(Seq<char>, V)>::empty());
            assert(assoc_find(es.push((k, v)).drop_first(), q) is None);
        }
    } else {
        assert forall|j: int|
            0 <= j < es.drop_first().len() implies (#[trigger] es.drop_first()[j]).0 != k by {
            assert(es.drop_first()[j] == es[j + 1]);
        }
        lemma_assoc_push(es.drop_first(), k, v);
        assert forall|q: Seq<char>|
            #[trigger] assoc_find(es.push((k, v)), q) == if q == k {
                Some(v)
            } else {
                assoc_find(es, q)
            } by {
            assert(es.push((k, v)).drop_first() =~= es.drop_first().push((k, v)));
            assert(es.push((k, v))[0] == es[0]);
            assert(es[0].0 != k);
            assert(assoc_find(es.drop_first().push((k, v)), q) == if q == k {
                Some(v)
            } else {
                assoc_find(es.drop_first(), q)
            });
        }
    }
}

proof fn lemma_assoc_remove<V>(es: Seq<(Seq<char>, V)>, i: int)
    requires
        0 <= i < es.len(),
        forall|j: int| 0 <= j < es.len() && j != i ==> (#[trigger] es[j]).0 != es[i].0,
    ensures
        forall|q: Seq<char>|
            #[trigger] assoc_find(es.remove(i), q) == if q == es[i].0 {
                None
            } else {
                assoc_find(es, q)
            },
    decreases i,
{
    let es2 = es.remove(i);
    if i == 0 {
        assert forall|q: Seq<char>|
            #[trigger] assoc_find(es2, q) == if q == es[i].0 {
                None
            } else {
                assoc_find(es, q)
            } by {
            assert(es2 =~= es.drop_first());
            if q == es[0].0 {
                assert forall|j: int|
                    0 <= j < es.drop_first().len() implies (#[trigger] es.drop_first()[j]).0
                        != q by {
                    assert(es.drop_first()[j] == es[j + 1]);
                }
                lemma_assoc_find_none(es.drop_first(), q);
            }
        }
    } else {
        assert(es.drop_first()[i - 1] == es[i]);
        assert forall|j: int|
            0 <= j < es.drop_first().len() && j != i - 1 implies (#[trigger] es.drop_first()[
            j]).0 != es.drop_first()[i - 1].0 by {
            assert(es.drop_first()[j] == es[j + 1]);
        }
        lemma_assoc_remove(es.drop_first(), i - 1);
        assert forall|q: Seq<char>|
            #[trigger] assoc_find(es2, q) == if q == es[i].0 {
                None
            } else {
                assoc_find(es, q)
            } by {
            assert(es2.drop_first() =~= es.drop_first().remove(i - 1));
            assert(es2[0] == es[0]);
            assert(es[0].0 != es[i].0);
            assert(assoc_find(es.drop_first().remove(i - 1), q) == if q == es.drop_first()[i
                - 1].0 {
                None
            } else {
                assoc_find(es.drop_first(), q)
            });
        }
    }
}

/// The character-level view of a key/value vector.
pub open spec fn kv_views(es: Seq<(String, String)>) -> Seq<(Seq<char>, Seq<char>)> {
    es.map_values(|e: (String, String)| (e.0@, e.1@))
}

/// The character-level view of a named-section vector.
pub open spec fn section_views(ss: Seq<(String, Vec<(String, String)>)>) -> Seq<
    (Seq<char>, Seq<(Seq<char>, Seq<char>)>),
> {
    ss.map_values(|s: (String, Vec<(String, String)>)| (s.0@, kv_views(s.1@)))
}

/// The path variants a lookup walks, most specific first: the full path,
/// then the path with command levels removed from the end one by one,
/// then the bare flag.
pub open spec fn path_variants_spec(p: Seq<char>) -> Seq<Seq<char>> {
    let parts = split_by(p, '/');
    if parts.len() <= 1 {
        seq![p]
    } else {
        let flag = parts.last();
        let m = parts.len() - 1;
        seq![p] + Seq::new(
            (m - 1) as nat,
            |k: int| join_char(parts.take(m - 1 - k), '/') + seq!['/'] + flag,
        ) + seq![flag]
    }
}

/// The applicable path variants for a full path, by walking up the
/// command hierarchy: `pr/create/editor` gives `pr/create/editor`,
/// `pr/editor`, `editor`.
pub fn get_path_variants(path: &str) -> (r: Vec<String>)
    ensures
        r.deep_view() == path_variants_spec(path@),
{
    let parts = split_char(path, '/');
    let ghost pv = parts.deep_view();
    if parts.len() <= 1 {
        let mut r: Vec<String> = Vec::new();
        r.push(path.to_owned());
        proof {
            assert(r.deep_view() =~~= path_variants_spec(path@));
        }
        return r;
    }
    let flag = parts[parts.len() - 1].clone();
    let m = parts.len() - 1;
    let mut r: Vec<String> = Vec::new();
    r.push(path.to_owned());
    let mut k: usize = 0;
    while k < m - 1
        invariant
            pv == parts.deep_view(),
            pv.len() >= 2,
            m == pv.len() - 1,
            flag@ == pv.last(),
            0 <= k <= m - 1,
            r@.len() == 1 + k,
            r@[0]@ == path@,
            forall|m2: int|
                1 <= m2 <= k ==> #[trigger] r@[m2]@ == join_char(pv.take(m - m2), '/')
                    + seq!['/'] + pv.last(),
        decreases m - k,
    {
        let mut variant = join_strings_prefix(&parts, m - 1 - k, '/');
        push_char(&mut variant, '/');
        variant.append(flag.as_str());
        r.push(variant);
        k = k + 1;
    }
    r.push(flag);
    proof {
        assert(r.deep_view() =~~= path_variants_spec(path@));
    }
    r
}

/// The key a host scope is stored under: `<host>[:<port>]`.
pub open spec fn host_key_spec(rd: GitRemoteData) -> Seq<char> {
    match rd.port {
        Some(p) => rd.host@ + seq![':'] + dec_str(p as int),
        None => rd.host@,
    }
}

/// The key a remote scope is stored under: `<host>[:<port>]/<path>`.
pub open spec fn remote_key_spec(rd: GitRemoteData) -> Seq<char> {
    host_key_spec(rd) + seq!['/'] + rd.path@
}

/// Formats a host identifier for use as a config key.
pub fn format_host_key(remote: &GitRemoteData) -> (r: String)
    ensures
        r@ == host_key_spec(*remote),
{
    match remote.port {
        Some(p) => {
            let mut r = remote.host.clone();
            push_char(&mut r, ':');
            let digits = u32_to_string(p as u32);
            r.append(digits.as_str());
            proof {
                assert(r@ =~= host_key_spec(*remote));
            }
            r
        },
        None => remote.host.clone(),
    }
}

/// Formats a remote identifier for use as a config key.
pub fn format_remote_key(remote: &GitRemoteData) -> (r: String)
    ensures
        r@ == remote_key_spec(*remote),
{
    let mut r = format_host_key(remote);
    push_char(&mut r, '/');
    r.append(remote.path.as_str());
    proof {
        assert(r@ =~= remote_key_spec(*remote));
    }
    r
}

/// First value found for any of `vars`, tried in order.
pub open spec fn scan_variants(es: Seq<(Seq<char>, Seq<char>)>, vars: Seq<Seq<char>>) -> Option<
    Seq<char>,
>
    decreases vars.len(),
{
    if vars.len() == 0 {
        None
    } else {
        match assoc_find(es, vars[0]) {
            Some(v) => Some(v),
            None => scan_variants(es, vars.drop_first()),
        }
    }
}

/// Configuration scope.
#[derive(Clone, Copy, Debug, PartialEq)]
pub enum ConfigScope {
    Global,
    Host,
    Remote,
}

/// An enum whose values can be named in configuration entries, matched
/// ASCII-case-insensitively the way command-line value parsing does.
pub trait ConfigValueEnum: Sized {
    /// The value a configuration string names, if any.
    spec fn from_name_spec(s: Seq<char>) -> Option<Self>;

    /// Parses a configuration string into the value it names.
    fn from_config_name(s: &str) -> (r: Option<Self>)
        ensures
            r == Self::from_name_spec(s@),
    ;
}

impl ConfigValueEnum for ConfigScope {
    open spec fn from_name_spec(s: Seq<char>) -> Option<ConfigScope> {
        if str_ieq_spec(s, seq!['g', 'l', 'o', 'b', 'a', 'l']) {
            Some(ConfigScope::Global)
        } else if str_ieq_spec(s, seq!['h', 'o', 's', 't']) {
            Some(ConfigScope::Host)
        } else if str_ieq_spec(s, seq!['r', 'e', 'm', 'o', 't', 'e']) {
            Some(ConfigScope::Remote)
        } else {
            None
        }
    }

    fn from_config_name(s: &str) -> (r: Option<ConfigScope>) {
        proof {
            reveal_strlit("global");
            assert(("global")@ =~= seq!['g', 'l', 'o', 'b', 'a', 'l']);
            reveal_strlit("host");
            assert(("host")@ =~= seq!['h', 'o', 's', 't']);
            reveal_strlit("remote");
            assert(("remote")@ =~= seq!['r', 'e', 'm', 'o', 't', 'e']);
        }
        if str_eq_ignore_ascii_case(s, "global") {
            Some(ConfigScope::Global)
        } else if str_eq_ignore_ascii_case(s, "host") {
            Some(ConfigScope::Host)
        } else if str_eq_ignore_ascii_case(s, "remote") {
            Some(ConfigScope::Remote)
        } else {
            None
        }
    }
}

/// Config source: a scope together with the remote it applies to.
#[derive(Clone, Copy, Debug)]
pub enum ConfigSource<'a> {
    Global,
    Host(&'a GitRemoteData),
    Remote(&'a GitRemoteData),
}

/// Errors of configuration handling.
#[derive(Clone, Copy, Debug, PartialEq)]
pub enum ConfigError {
    /// The host or remote scope was named without remote data.
    MissingRemote,
}

impl<'a> ConfigSource<'a> {
    /// Pairs a scope with its remote; the host and remote scopes demand
    /// one.
    pub fn new(scope: ConfigScope, remote: Option<&'a GitRemoteData>) -> (r: Result<
        ConfigSource<'a>,
        ConfigError,
    >)
        ensures
            match scope {
                ConfigScope::Global => r == Result::<ConfigSource<'a>, ConfigError>::Ok(
                    ConfigSource::<'a>::Global,
                ),
                ConfigScope::Host => match remote {
                    Some(rd) => r matches Ok(s) && s matches ConfigSource::Host(h) && h == rd,
                    None => r == Result::<ConfigSource<'a>, ConfigError>::Err(
                        ConfigError::MissingRemote,
                    ),
                },
                ConfigScope::Remote => match remote {
                    Some(rd) => r matches Ok(s) && s matches ConfigSource::Remote(h) && h == rd,
                    None => r == Result::<ConfigSource<'a>, ConfigError>::Err(
                        ConfigError::MissingRemote,
                    ),
                },
            },
    {
        match scope {
            ConfigScope::Global => Ok(ConfigSource::Global),
            ConfigScope::Host => match remote {
                Some(rd) => Ok(ConfigSource::Host(rd)),
                None => Err(ConfigError::MissingRemote),
            },
            ConfigScope::Remote => match remote {
                Some(rd) => Ok(ConfigSource::Remote(rd)),
                None => Err(ConfigError::MissingRemote),
            },
        }
    }
}

/// Configuration values in their three scopes.
pub struct Config {
    global: Vec<(String, String)>,
    host: Vec<(String, Vec<(String, String)>)>,
    remote: Vec<(String, Vec<(String, String)>)>,
}

impl Config {
    pub closed spec fn global_view(&self) -> Seq<(Seq<char>, Seq<char>)> {
        kv_views(self.global@)
    }

    pub closed spec fn host_view(&self) -> Seq<(Seq<char>, Seq<(Seq<char>, Seq<char>)>)> {
        section_views(self.host@)
    }

    pub closed spec fn remote_view(&self) -> Seq<(Seq<char>, Seq<(Seq<char>, Seq<char>)>)> {
        section_views(self.remote@)
    }

    pub closed spec fn wf(&self) -> bool {
        &&& unique_assoc(self.global_view())
        &&& unique_assoc(self.host_view())
        &&& unique_assoc(self.remote_view())
        &&& forall|i: int|
            0 <= i < self.host_view().len() ==> unique_assoc((#[trigger] self.host_view()[i]).1)
        &&& forall|i: int|
            0 <= i < self.remote_view().len() ==> unique_assoc(
                (#[trigger] self.remote_view()[i]).1,
            )
    }

    /// What a lookup in the global scope yields.
    pub open spec fn global_lookup(&self, path: Seq<char>) -> Option<Seq<char>> {
        scan_variants(self.global_view(), path_variants_spec(path))
    }

    /// What a lookup in the host scope of `rd` yields.
    pub open spec fn host_lookup(&self, path: Seq<char>, rd: GitRemoteData) -> Option<Seq<char>> {
        match assoc_find(self.host_view(), host_key_spec(rd)) {
            Some(tab) => scan_variants(tab, path_variants_spec(path)),
            None => None,
        }
    }

    /// What a lookup in the remote scope of `rd` yields.
    pub open spec fn remote_lookup(&self, path: Seq<char>, rd: GitRemoteData) -> Option<Seq<char>> {
        match assoc_find(self.remote_view(), remote_key_spec(rd)) {
            Some(tab) => scan_variants(tab, path_variants_spec(path)),
            None => None,
        }
    }

    /// The effective value and its winning scope: remote beats host
    /// beats global.
    pub open spec fn effective_lookup(&self, path: Seq<char>, remote: Option<GitRemoteData>)
        -> Option<(Seq<char>, ConfigScope)> {
        match remote {
            Some(rd) => match self.remote_lookup(path, rd) {
                Some(v) => Some((v, ConfigScope::Remote)),
                None => match self.host_lookup(path, rd) {
                    Some(v) => Some((v, ConfigScope::Host)),
                    None => match self.global_lookup(path) {
                        Some(v) => Some((v, ConfigScope::Global)),
                        None => None,
                    },
                },
            },
            None => match self.global_lookup(path) {
                Some(v) => Some((v, ConfigScope::Global)),
                None => None,
            },
        }
    }

    /// An empty configuration.
    pub fn new() -> (r: Config)
        ensures
            r.wf(),
            r.global_view() == Seq::<(Seq<char>, Seq<char>)>::empty(),
            r.host_view() == Seq::<(Seq<char>, Seq<(Seq<char>, Seq<char>)>)>::empty(),
            r.remote_view() == Seq::<(Seq<char>, Seq<(Seq<char>, Seq<char>)>)>::empty(),
    {
        let r = Config { global: Vec::new(), host: Vec::new(), remote: Vec::new() };
        proof {
            assert(r.global_view() =~= Seq::<(Seq<char>, Seq<char>)>::empty());
            assert(r.host_view() =~= Seq::<(Seq<char>, Seq<(Seq<char>, Seq<char>)>)>::empty());
            assert(r.remote_view() =~= Seq::<(Seq<char>, Seq<(Seq<char>, Seq<char>)>)>::empty());
        }
        r
    }
}

/// The value under `q` in the section stored under `key`, if both exist.
pub open spec fn section_value(
    sv: Seq<(Seq<char>, Seq<(Seq<char>, Seq<char>)>)>,
    key: Seq<char>,
    q: Seq<char>,
) -> Option<Seq<char>> {
    match assoc_find(sv, key) {
        Some(tab) => assoc_find(tab, q),
        None => None,
    }
}

/// What `"true"`/`"false"` parse to; anything else is rejected.
pub open spec fn parse_bool_spec(s: Seq<char>) -> Option<bool> {
    if s == seq!['t', 'r', 'u', 'e'] {
        Some(true)
    } else if s == seq!['f', 'a', 'l', 's', 'e'] {
        Some(false)
    } else {
        None
    }
}

/// The values named by a comma-separated list, each element trimmed,
/// unrecognised elements dropped.
pub open spec fn enum_list_spec<T: ConfigValueEnum>(parts: Seq<Seq<char>>) -> Seq<T>
    decreases parts.len(),
{
    if parts.len() == 0 {
        seq![]
    } else {
        let rest = enum_list_spec::<T>(parts.drop_first());
        match T::from_name_spec(trim_spec(parts[0])) {
            Some(x) => seq![x] + rest,
            None => rest,
        }
    }
}

/// First value stored under `key`, cloned.
fn kv_get(table: &Vec<(String, String)>, key: &str) -> (r: Option<String>)
    ensures
        match r {
            Some(v) => assoc_find(kv_views(table@), key@) == Some(v@),
            None => assoc_find(kv_views(table@), key@) is None,
        },
{
    let ghost es = kv_views(table@);
    let n = table.len();
    let mut i: usize = 0;
    while i < n
        invariant
            es == kv_views(table@),
            n == es.len(),
            0 <= i <= n,
            forall|j: int| 0 <= j < i ==> (#[trigger] es[j]).0 != key@,
        decreases n - i,
    {
        if str_eq(table[i].0.as_str(), key) {
            proof {
                assert(es[i as int] == (table@[i as int].0@, table@[i as int].1@));
                lemma_assoc_find_at(es, key@, i as int);
            }
            return Some(table[i].1.clone());
        }
        proof {
            assert(es[i as int] == (table@[i as int].0@, table@[i as int].1@));
        }
        i = i + 1;
    }
    proof {
        lemma_assoc_find_none(es, key@);
    }
    None
}

/// First value found for any of `vars`, tried in order.
fn kv_scan(table: &Vec<(String, String)>, vars: &Vec<String>) -> (r: Option<String>)
    ensures
        match r {
            Some(v) => scan_variants(kv_views(table@), vars.deep_view()) == Some(v@),
            None => scan_variants(kv_views(table@), vars.deep_view()) is None,
        },
{
    let ghost es = kv_views(table@);
    let ghost vs = vars.deep_view();
    proof {
        assert(vs.skip(0) =~= vs);
    }
    let n = vars.len();
    let mut i: usize = 0;
    while i < n
        invariant
            es == kv_views(table@),
            vs == vars.deep_view(),
            n == vs.len(),
            0 <= i <= n,
            scan_variants(es, vs) == scan_variants(es, vs.skip(i as int)),
        decreases n - i,
    {
        let hit = kv_get(table, vars[i].as_str());
        proof {
            assert(vs.skip(i as int)[0] == vs[i as int]);
            assert(vs.skip(i as int).drop_first() =~= vs.skip(i + 1));
        }
        match hit {
            Some(v) => {
                return Some(v);
            },
            None => {},
        }
        i = i + 1;
    }
    proof {
        assert(vs.skip(n as int).len() == 0);
    }
    None
}

/// The section stored under `key`, if any.
fn section_find<'a>(sections: &'a Vec<(String, Vec<(String, String)>)>, key: &str) -> (r: Option<
    &'a Vec<(String, String)>,
>)
    ensures
        match r {
            Some(t) => assoc_find(section_views(sections@), key@) == Some(kv_views(t@)),
            None => assoc_find(section_views(sections@), key@) is None,
        },
{
    let ghost sv = section_views(sections@);
    let n = sections.len();
    let mut i: usize = 0;
    while i < n
        invariant
            sv == section_views(sections@),
            n == sv.len(),
            0 <= i <= n,
            forall|j: int| 0 <= j < i ==> (#[trigger] sv[j]).0 != key@,
        decreases n - i,
    {
        if str_eq(sections[i].0.as_str(), key) {
            proof {
                assert(sv[i as int] == (sections@[i as int].0@, kv_views(sections@[i as int].1@)));
                lemma_assoc_find_at(sv, key@, i as int);
            }
            return Some(&sections[i].1);
        }
        proof {
            assert(sv[i as int] == (sections@[i as int].0@, kv_views(sections@[i as int].1@)));
        }
        i = i + 1;
    }
    proof {
        lemma_assoc_find_none(sv, key@);
    }
    None
}

/// Index of the section stored under `key`, if any.
fn section_index(sections: &Vec<(String, Vec<(String, String)>)>, key: &str) -> (r: Option<usize>)
    ensures
        match r {
            Some(i) => i < section_views(sections@).len() && section_views(sections@)[i as int].0
                == key@ && forall|j: int|
                0 <= j < i ==> (#[trigger] section_views(sections@)[j]).0 != key@,
            None => forall|j: int|
                0 <= j < section_views(sections@).len() ==> (#[trigger] section_views(
                    sections@,
                )[j]).0 != key@,
        },
{
    let ghost sv = section_views(sections@);
    let n = sections.len();
    let mut i: usize = 0;
    while i < n
        invariant
            sv == section_views(sections@),
            n == sv.len(),
            0 <= i <= n,
            forall|j: int| 0 <= j < i ==> (#[trigger] sv[j]).0 != key@,
        decreases n - i,
    {
        if str_eq(sections[i].0.as_str(), key) {
            proof {
                assert(sv[i as int] == (sections@[i as int].0@, kv_views(sections@[i as int].1@)));
            }
            return Some(i);
        }
        proof {
            assert(sv[i as int] == (sections@[i as int].0@, kv_views(sections@[i as int].1@)));
        }
        i = i + 1;
    }
    None
}

/// Stores `value` under `key`, overwriting any earlier value.
fn kv_upsert(table: &mut Vec<(String, String)>, key: &str, value: &str)
    requires
        unique_assoc(kv_views(old(table)@)),
    ensures
        unique_assoc(kv_views(final(table)@)),
        forall|q: Seq<char>|
            #[trigger] assoc_find(kv_views(final(table)@), q) == if q == key@ {
                Some(value@)
            } else {
                assoc_find(kv_views(old(table)@), q)
            },
{
    let ghost es = kv_views(table@);
    let n = table.len();
    let mut i: usize = 0;
    while i < n
        invariant
            unique_assoc(es),
            *table == *old(table),
            es == kv_views(table@),
            n == es.len(),
            0 <= i <= n,
            forall|j: int| 0 <= j < i ==> (#[trigger] es[j]).0 != key@,
        decreases n - i,
    {
        if str_eq(table[i].0.as_str(), key) {
            proof {
                assert(es[i as int] == (table@[i as int].0@, table@[i as int].1@));
            }
            let k = table[i].0.clone();
            table.set(i, (k, value.to_owned()));
            proof {
                assert(kv_views(table@) =~= es.update(i as int, (es[i as int].0, value@)));
                lemma_assoc_update(es, i as int, value@);
                assert forall|a: int, b: int|
                    0 <= a < b < kv_views(table@).len() implies (#[trigger] kv_views(table@)[
                    a]).0 != (#[trigger] kv_views(table@)[b]).0 by {
                    assert(kv_views(table@)[a].0 == es[a].0);
                    assert(kv_views(table@)[b].0 == es[b].0);
                }
            }
            return ;
        }
        proof {
            assert(es[i as int] == (table@[i as int].0@, table@[i as int].1@));
        }
        i = i + 1;
    }
    table.push((key.to_owned(), value.to_owned()));
    proof {
        assert(kv_views(table@) =~= es.push((key@, value@)));
        lemma_assoc_push(es, key@, value@);
        assert forall|a: int, b: int|
            0 <= a < b < kv_views(table@).len() implies (#[trigger] kv_views(table@)[a]).0 != (
        #[trigger] kv_views(table@)[b]).0 by {
            if b < es.len() {
                assert(kv_views(table@)[a].0 == es[a].0);
                assert(kv_views(table@)[b].0 == es[b].0);
            } else {
                assert(kv_views(table@)[b].0 == key@);
                assert(kv_views(table@)[a].0 == es[a].0);
            }
        }
    }
}

/// Removes the value under `key`; reports whether one was there.
fn kv_remove(table: &mut Vec<(String, String)>, key: &str) -> (removed: bool)
    requires
        unique_assoc(kv_views(old(table)@)),
    ensures
        unique_assoc(kv_views(final(table)@)),
        removed == (assoc_find(kv_views(old(table)@), key@) is Some),
        forall|q: Seq<char>|
            #[trigger] assoc_find(kv_views(final(table)@), q) == if q == key@ {
                None
            } else {
                assoc_find(kv_views(old(table)@), q)
            },
{
    let ghost es = kv_views(table@);
    let n = table.len();
    let mut i: usize = 0;
    while i < n
        invariant
            unique_assoc(es),
            *table == *old(table),
            es == kv_views(table@),
            n == es.len(),
            0 <= i <= n,
            forall|j: int| 0 <= j < i ==> (#[trigger] es[j]).0 != key@,
        decreases n - i,
    {
        if str_eq(table[i].0.as_str(), key) {
            proof {
                assert(es[i as int] == (table@[i as int].0@, table@[i as int].1@));
                lemma_assoc_find_at(es, key@, i as int);
            }
            table.remove(i);
            proof {
                assert(kv_views(table@) =~= es.remove(i as int));
                assert forall|j: int|
                    0 <= j < es.len() && j != i implies (#[trigger] es[j]).0 != es[i as int].0 by {
                }
                lemma_assoc_remove(es, i as int);
                assert forall|a: int, b: int|
                    0 <= a < b < kv_views(table@).len() implies (#[trigger] kv_views(table@)[
                    a]).0 != (#[trigger] kv_views(table@)[b]).0 by {
                    let a0 = if a < i {
                        a
                    } else {
                        a + 1
                    };
                    let b0 = if b < i {
                        b
                    } else {
                        b + 1
                    };
                    assert(kv_views(table@)[a].0 == es[a0].0);
                    assert(kv_views(table@)[b].0 == es[b0].0);
                }
            }
            return true;
        }
        proof {
            assert(es[i as int] == (table@[i as int].0@, table@[i as int].1@));
        }
        i = i + 1;
    }
    proof {
        lemma_assoc_find_none(es, key@);
    }
    false
}

impl Config {
    /// Value for `path` in one scope, walking the path variants, without
    /// cross-scope precedence.
    pub fn get_value_from_scope(&self, path: &str, source: ConfigSource) -> (r: Option<String>)
        ensures
            match source {
                ConfigSource::Global => match r {
                    Some(v) => self.global_lookup(path@) == Some(v@),
                    None => self.global_lookup(path@) is None,
                },
                ConfigSource::Host(rd) => match r {
                    Some(v) => self.host_lookup(path@, *rd) == Some(v@),
                    None => self.host_lookup(path@, *rd) is None,
                },
                ConfigSource::Remote(rd) => match r {
                    Some(v) => self.remote_lookup(path@, *rd) == Some(v@),
                    None => self.remote_lookup(path@, *rd) is None,
                },
            },
    {
        let variants = get_path_variants(path);
        match source {
            ConfigSource::Global => kv_scan(&self.global, &variants),
            ConfigSource::Host(rd) => {
                let key = format_host_key(rd);
                match section_find(&self.host, key.as_str()) {
                    Some(tab) => kv_scan(tab, &variants),
                    None => None,
                }
            },
            ConfigSource::Remote(rd) => {
                let key = format_remote_key(rd);
                match section_find(&self.remote, key.as_str()) {
                    Some(tab) => kv_scan(tab, &variants),
                    None => None,
                }
            },
        }
    }

    /// Effective value for `path` with precedence: remote, then host,
    /// then global.
    pub fn get_value_effective(&self, path: &str, remote: Option<&GitRemoteData>) -> (r: Option<
        (String, ConfigScope),
    >)
        ensures
            ({
                let rdo = match remote {
                    Some(rd) => Some(*rd),
                    None => None,
                };
                match r {
                    Some(v) => self.effective_lookup(path@, rdo) == Some((v.0@, v.1)),
                    None => self.effective_lookup(path@, rdo) is None,
                }
            }),
    {
        match remote {
            Some(rd) => {
                if let Some(v) = self.get_value_from_scope(path, ConfigSource::Remote(rd)) {
                    return Some((v, ConfigScope::Remote));
                }
                if let Some(v) = self.get_value_from_scope(path, ConfigSource::Host(rd)) {
                    return Some((v, ConfigScope::Host));
                }
                match self.get_value_from_scope(path, ConfigSource::Global) {
                    Some(v) => Some((v, ConfigScope::Global)),
                    None => None,
                }
            },
            None => match self.get_value_from_scope(path, ConfigSource::Global) {
                Some(v) => Some((v, ConfigScope::Global)),
                None => None,
            },
        }
    }

    /// A string config value, with precedence applied.
    pub fn get_string(&self, path: &str, remote: Option<&GitRemoteData>) -> (r: Option<String>)
        ensures
            ({
                let rdo = match remote {
                    Some(rd) => Some(*rd),
                    None => None,
                };
                match r {
                    Some(v) => self.effective_lookup(path@, rdo) matches Some(p) && p.0 == v@,
                    None => self.effective_lookup(path@, rdo) is None,
                }
            }),
    {
        match self.get_value_effective(path, remote) {
            Some(v) => Some(v.0),
            None => None,
        }
    }

    /// A string config value from the global scope alone.
    pub fn get_string_from_global_scope(&self, path: &str) -> (r: Option<String>)
        ensures
            match r {
                Some(v) => self.effective_lookup(path@, None) matches Some(p) && p.0 == v@,
                None => self.effective_lookup(path@, None) is None,
            },
    {
        self.get_string(path, None)
    }

    /// A boolean config value: only the exact strings `true` and `false`
    /// count.
    pub fn get_bool(&self, path: &str, remote: Option<&GitRemoteData>) -> (r: Option<bool>)
        ensures
            ({
                let rdo = match remote {
                    Some(rd) => Some(*rd),
                    None => None,
                };
                r == (match self.effective_lookup(path@, rdo) {
                    Some(p) => parse_bool_spec(p.0),
                    None => None,
                })
            }),
    {
        proof {
            reveal_strlit("true");
            assert(("true")@ =~= seq!['t', 'r', 'u', 'e']);
            reveal_strlit("false");
            assert(("false")@ =~= seq!['f', 'a', 'l', 's', 'e']);
        }
        match self.get_value_effective(path, remote) {
            Some(v) => {
                if str_eq(v.0.as_str(), "true") {
                    Some(true)
                } else if str_eq(v.0.as_str(), "false") {
                    Some(false)
                } else {
                    None
                }
            },
            None => None,
        }
    }

    /// A `u32` config value, parsed as Rust's `str::parse::<u32>` does.
    pub fn get_u32(&self, path: &str, remote: Option<&GitRemoteData>) -> (r: Option<u32>)
        ensures
            ({
                let rdo = match remote {
                    Some(rd) => Some(*rd),
                    None => None,
                };
                r == (match self.effective_lookup(path@, rdo) {
                    Some(p) => if is_uint_str(p.0) && uint_val(p.0) <= u32::MAX {
                        Some(uint_val(p.0) as u32)
                    } else {
                        None
                    },
                    None => None,
                })
            }),
    {
        match self.get_value_effective(path, remote) {
            Some(v) => parse_u32_str(v.0.as_str()),
            None => None,
        }
    }

    /// An enum config value, matched by name.
    pub fn get_enum<T: ConfigValueEnum>(&self, path: &str, remote: Option<&GitRemoteData>) -> (r:
        Option<T>)
        ensures
            ({
                let rdo = match remote {
                    Some(rd) => Some(*rd),
                    None => None,
                };
                r == (match self.effective_lookup(path@, rdo) {
                    Some(p) => T::from_name_spec(p.0),
                    None => None,
                })
            }),
    {
        match self.get_value_effective(path, remote) {
            Some(v) => T::from_config_name(v.0.as_str()),
            None => None,
        }
    }

    /// Enum values from a comma-separated config value, each element
    /// trimmed, unrecognised elements dropped.
    pub fn get_enum_vec<T: ConfigValueEnum>(&self, path: &str, remote: Option<&GitRemoteData>)
        -> (r: Option<Vec<T>>)
        ensures
            ({
                let rdo = match remote {
                    Some(rd) => Some(*rd),
                    None => None,
                };
                match r {
                    Some(l) => self.effective_lookup(path@, rdo) matches Some(p) && l@
                        == enum_list_spec::<T>(split_by(p.0, ',')),
                    None => self.effective_lookup(path@, rdo) is None,
                }
            }),
    {
        let v = match self.get_value_effective(path, remote) {
            Some(v) => v.0,
            None => {
                return None;
            },
        };
        let parts = split_char(v.as_str(), ',');
        let ghost ps = parts.deep_view();
        let mut out: Vec<T> = Vec::new();
        proof {
            assert(ps.skip(0) =~= ps);
            assert(out@ + enum_list_spec::<T>(ps) =~= enum_list_spec::<T>(ps));
        }
        let mut i: usize = 0;
        while i < parts.len()
            invariant
                ps == parts.deep_view(),
                0 <= i <= ps.len(),
                parts@.len() == ps.len(),
                enum_list_spec::<T>(ps) == out@ + enum_list_spec::<T>(ps.skip(i as int)),
            decreases ps.len() - i,
        {
            let trimmed = trim_str(parts[i].as_str());
            proof {
                assert(ps.skip(i as int)[0] == ps[i as int]);
                assert(ps.skip(i as int).drop_first() =~= ps.skip(i + 1));
            }
            match T::from_config_name(trimmed.as_str()) {
                Some(x) => {
                    out.push(x);
                    proof {
                        assert(enum_list_spec::<T>(ps) =~= out@ + enum_list_spec::<T>(
                            ps.skip(i + 1),
                        ));
                    }
                },
                None => {},
            }
            i = i + 1;
        }
        proof {
            assert(ps.skip(ps.len() as int).len() == 0);
            assert(enum_list_spec::<T>(ps) =~= out@);
        }
        Some(out)
    }

    /// Sets `path` to `value` in the given scope; other paths and scopes
    /// are untouched.
    pub fn set_value(&mut self, path: &str, value: &str, source: ConfigSource)
        requires
            old(self).wf(),
        ensures
            final(self).wf(),
            match source {
                ConfigSource::Global => {
                    &&& forall|q: Seq<char>|
                        #[trigger] assoc_find(final(self).global_view(), q) == if q == path@ {
                            Some(value@)
                        } else {
                            assoc_find(old(self).global_view(), q)
                        }
                    &&& final(self).host_view() == old(self).host_view()
                    &&& final(self).remote_view() == old(self).remote_view()
                },
                ConfigSource::Host(rd) => {
                    &&& final(self).global_view() == old(self).global_view()
                    &&& final(self).remote_view() == old(self).remote_view()
                    &&& forall|sk: Seq<char>, q: Seq<char>|
                        #[trigger] section_value(final(self).host_view(), sk, q) == if sk
                            == host_key_spec(*rd) && q == path@ {
                            Some(value@)
                        } else {
                            section_value(old(self).host_view(), sk, q)
                        }
                },
                ConfigSource::Remote(rd) => {
                    &&& final(self).global_view() == old(self).global_view()
                    &&& final(self).host_view() == old(self).host_view()
                    &&& forall|sk: Seq<char>, q: Seq<char>|
                        #[trigger] section_value(final(self).remote_view(), sk, q) == if sk
                            == remote_key_spec(*rd) && q == path@ {
                            Some(value@)
                        } else {
                            section_value(old(self).remote_view(), sk, q)
                        }
                },
            },
    {
        match source {
            ConfigSource::Global => {
                kv_upsert(&mut self.global, path, value);
            },
            ConfigSource::Host(rd) => {
                let key = format_host_key(rd);
                section_upsert(&mut self.host, key.as_str(), path, value);
            },
            ConfigSource::Remote(rd) => {
                let key = format_remote_key(rd);
                section_upsert(&mut self.remote, key.as_str(), path, value);
            },
        }
    }

    /// Sets `path` to `value` in the host section stored under the raw
    /// key `host_key`, as a loader rebuilding a stored configuration
    /// needs.
    pub fn set_host_value(&mut self, host_key: &str, path: &str, value: &str)
        requires
            old(self).wf(),
        ensures
            final(self).wf(),
            final(self).global_view() == old(self).global_view(),
            final(self).remote_view() == old(self).remote_view(),
            forall|sk: Seq<char>, q: Seq<char>|
                #[trigger] section_value(final(self).host_view(), sk, q) == if sk == host_key@ && q
                    == path@ {
                    Some(value@)
                } else {
                    section_value(old(self).host_view(), sk, q)
                },
    {
        section_upsert(&mut self.host, host_key, path, value);
    }

    /// Sets `path` to `value` in the remote section stored under the raw
    /// key `remote_key`, as a loader rebuilding a stored configuration
    /// needs.
    pub fn set_remote_value(&mut self, remote_key: &str, path: &str, value: &str)
        requires
            old(self).wf(),
        ensures
            final(self).wf(),
            final(self).global_view() == old(self).global_view(),
            final(self).host_view() == old(self).host_view(),
            forall|sk: Seq<char>, q: Seq<char>|
                #[trigger] section_value(final(self).remote_view(), sk, q) == if sk == remote_key@
                    && q == path@ {
                    Some(value@)
                } else {
                    section_value(old(self).remote_view(), sk, q)
                },
    {
        section_upsert(&mut self.remote, remote_key, path, value);
    }

    /// Removes `path` from the given scope; reports whether a value was
    /// there.  Other paths and scopes are untouched.
    pub fn unset_value(&mut self, path: &str, source: ConfigSource) -> (removed: bool)
        requires
            old(self).wf(),
        ensures
            final(self).wf(),
            match source {
                ConfigSource::Global => {
                    &&& removed == (assoc_find(old(self).global_view(), path@) is Some)
                    &&& forall|q: Seq<char>|
                        #[trigger] assoc_find(final(self).global_view(), q) == if q == path@ {
                            None
                        } else {
                            assoc_find(old(self).global_view(), q)
                        }
                    &&& final(self).host_view() == old(self).host_view()
                    &&& final(self).remote_view() == old(self).remote_view()
                },
                ConfigSource::Host(rd) => {
                    &&& removed == (section_value(
                        old(self).host_view(),
                        host_key_spec(*rd),
                        path@,
                    ) is Some)
                    &&& final(self).global_view() == old(self).global_view()
                    &&& final(self).remote_view() == old(self).remote_view()
                    &&& forall|sk: Seq<char>, q: Seq<char>|
                        #[trigger] section_value(final(self).host_view(), sk, q) == if sk
                            == host_key_spec(*rd) && q == path@ {
                            None
                        } else {
                            section_value(old(self).host_view(), sk, q)
                        }
                },
                ConfigSource::Remote(rd) => {
                    &&& removed == (section_value(
                        old(self).remote_view(),
                        remote_key_spec(*rd),
                        path@,
                    ) is Some)
                    &&& final(self).global_view() == old(self).global_view()
                    &&& final(self).host_view() == old(self).host_view()
                    &&& forall|sk: Seq<char>, q: Seq<char>|
                        #[trigger] section_value(final(self).remote_view(), sk, q) == if sk
                            == remote_key_spec(*rd) && q == path@ {
                            None
                        } else {
                            section_value(old(self).remote_view(), sk, q)
                        }
                },
            },
    {
        match source {
            ConfigSource::Global => kv_remove(&mut self.global, path),
            ConfigSource::Host(rd) => {
                let key = format_host_key(rd);
                section_remove(&mut self.host, key.as_str(), path)
            },
            ConfigSource::Remote(rd) => {
                let key = format_remote_key(rd);
                section_remove(&mut self.remote, key.as_str(), path)
            },
        }
    }
}

/// Uniqueness of a whole section table: section names and the keys
/// within each section.
pub open spec fn sections_wf(sv: Seq<(Seq<char>, Seq<(Seq<char>, Seq<char>)>)>) -> bool {
    &&& unique_assoc(sv)
    &&& forall|i: int| 0 <= i < sv.len() ==> unique_assoc((#[trigger] sv[i]).1)
}

/// Stores `value` under `path` in the section stored under `key`,
/// creating the section if needed.
fn section_upsert(
    sections: &mut Vec<(String, Vec<(String, String)>)>,
    key: &str,
    path: &str,
    value: &str,
)
    requires
        sections_wf(section_views(old(sections)@)),
    ensures
        sections_wf(section_views(final(sections)@)),
        forall|sk: Seq<char>, q: Seq<char>|
            #[trigger] section_value(section_views(final(sections)@), sk, q) == if sk == key@ && q
                == path@ {
                Some(value@)
            } else {
                section_value(section_views(old(sections)@), sk, q)
            },
{
    let ghost sv = section_views(sections@);
    match section_index(sections, key) {
        Some(i) => {
            let (name, mut tab) = sections.remove(i);
            let ghost tv = kv_views(tab@);
            proof {
                assert(sv[i as int] == (
                    old(sections)@[i as int].0@,
                    kv_views(old(sections)@[i as int].1@),
                ));
                assert(tv == sv[i as int].1);
                assert(unique_assoc(tv));
            }
            kv_upsert(&mut tab, path, value);
            let ghost tv2 = kv_views(tab@);
            sections.insert(i, (name, tab));
            proof {
                assert(section_views(sections@) =~~= sv.update(i as int, (sv[i as int].0, tv2)));
                lemma_assoc_update(sv, i as int, tv2);
                assert forall|a: int, b: int|
                    0 <= a < b < section_views(sections@).len() implies (
                #[trigger] section_views(sections@)[a]).0 != (#[trigger] section_views(
                    sections@,
                )[b]).0 by {
                    assert(section_views(sections@)[a].0 == sv[a].0);
                    assert(section_views(sections@)[b].0 == sv[b].0);
                }
                assert forall|m: int|
                    0 <= m < section_views(sections@).len() implies unique_assoc(
                    (#[trigger] section_views(sections@)[m]).1,
                ) by {
                    if m != i {
                        assert(section_views(sections@)[m].1 == sv[m].1);
                    }
                }
                lemma_assoc_find_at(sv, key@, i as int);
                assert forall|sk: Seq<char>, q: Seq<char>|
                    #[trigger] section_value(section_views(sections@), sk, q) == if sk == key@
                        && q == path@ {
                        Some(value@)
                    } else {
                        section_value(sv, sk, q)
                    } by {
                    let svp = section_views(sections@);
                    assert(assoc_find(svp, sk) == if sk == key@ {
                        Some(tv2)
                    } else {
                        assoc_find(sv, sk)
                    });
                    if sk == key@ {
                        assert(assoc_find(tv2, q) == if q == path@ {
                            Some(value@)
                        } else {
                            assoc_find(tv, q)
                        });
                        assert(assoc_find(sv, sk) == Some(tv));
                    }
                }
            }
        },
        None => {
            let mut tab: Vec<(String, String)> = Vec::new();
            tab.push((path.to_owned(), value.to_owned()));
            let ghost tv = kv_views(tab@);
            proof {
                assert(tv =~= seq![(path@, value@)]);
                assert(tv[0] == (path@, value@));
                assert(tv.drop_first().len() == 0);
                assert(assoc_find(tv, path@) == Some(value@));
                assert forall|q: Seq<char>| q != path@ implies #[trigger] assoc_find(tv, q)
                    is None by {
                    assert(assoc_find(tv.drop_first(), q) is None);
                }
            }
            sections.push((key.to_owned(), tab));
            proof {
                assert(section_views(sections@) =~~= sv.push((key@, tv)));
                lemma_assoc_push(sv, key@, tv);
                assert forall|a: int, b: int|
                    0 <= a < b < section_views(sections@).len() implies (
                #[trigger] section_views(sections@)[a]).0 != (#[trigger] section_views(
                    sections@,
                )[b]).0 by {
                    assert(section_views(sections@)[a].0 == sv[a].0);
                    if b < sv.len() {
                        assert(section_views(sections@)[b].0 == sv[b].0);
                    } else {
                        assert(section_views(sections@)[b].0 == key@);
                    }
                }
                assert forall|m: int|
                    0 <= m < section_views(sections@).len() implies unique_assoc(
                    (#[trigger] section_views(sections@)[m]).1,
                ) by {
                    if m < sv.len() {
                        assert(section_views(sections@)[m].1 == sv[m].1);
                    } else {
                        assert(section_views(sections@)[m].1 == tv);
                    }
                }
                lemma_assoc_find_none(sv, key@);
                assert forall|sk: Seq<char>, q: Seq<char>|
                    #[trigger] section_value(section_views(sections@), sk, q) == if sk == key@
                        && q == path@ {
                        Some(value@)
                    } else {
                        section_value(sv, sk, q)
                    } by {
                    let svp = section_views(sections@);
                    assert(assoc_find(svp, sk) == if sk == key@ {
                        Some(tv)
                    } else {
                        assoc_find(sv, sk)
                    });
                    if sk == key@ {
                        assert(assoc_find(tv, q) == if q == path@ {
                            Some(value@)
                        } else {
                            None
                        });
                    }
                }
            }
        },
    }
}

/// Removes `path` from the section stored under `key`; an emptied
/// section is dropped entirely.
fn section_remove(sections: &mut Vec<(String, Vec<(String, String)>)>, key: &str, path: &str) -> (
    removed: bool)
    requires
        sections_wf(section_views(old(sections)@)),
    ensures
        sections_wf(section_views(final(sections)@)),
        removed == (section_value(section_views(old(sections)@), key@, path@) is Some),
        forall|sk: Seq<char>, q: Seq<char>|
            #[trigger] section_value(section_views(final(sections)@), sk, q) == if sk == key@ && q
                == path@ {
                None
            } else {
                section_value(section_views(old(sections)@), sk, q)
            },
{
    let ghost sv = section_views(sections@);
    match section_index(sections, key) {
        Some(i) => {
            proof {
                lemma_assoc_find_at(sv, key@, i as int);
            }
            let (name, mut tab) = sections.remove(i);
            let ghost tv = kv_views(tab@);
            proof {
                assert(tv == sv[i as int].1);
                assert(unique_assoc(tv));
            }
            let removed = kv_remove(&mut tab, path);
            let ghost tv2 = kv_views(tab@);
            if tab.len() == 0 {
                proof {
                    assert(section_views(sections@) =~~= sv.remove(i as int));
                    assert forall|j: int|
                        0 <= j < sv.len() && j != i implies (#[trigger] sv[j]).0
                            != sv[i as int].0 by {}
                    lemma_assoc_remove(sv, i as int);
                    assert(tv2.len() == 0);
                    assert forall|q: Seq<char>| true implies #[trigger] assoc_find(tv2, q)
                        is None by {}
                    assert forall|a: int, b: int|
                        0 <= a < b < section_views(sections@).len() implies (
                    #[trigger] section_views(sections@)[a]).0 != (#[trigger] section_views(
                        sections@,
                    )[b]).0 by {
                        let a0 = if a < i {
                            a
                        } else {
                            a + 1
                        };
                        let b0 = if b < i {
                            b
                        } else {
                            b + 1
                        };
                        assert(section_views(sections@)[a].0 == sv[a0].0);
                        assert(section_views(sections@)[b].0 == sv[b0].0);
                    }
                    assert forall|m: int|
                        0 <= m < section_views(sections@).len() implies unique_assoc(
                        (#[trigger] section_views(sections@)[m]).1,
                    ) by {
                        let m0 = if m < i {
                            m
                        } else {
                            m + 1
                        };
                        assert(section_views(sections@)[m].1 == sv[m0].1);
                    }
                    assert forall|sk: Seq<char>, q: Seq<char>|
                        #[trigger] section_value(section_views(sections@), sk, q) == if sk == key@
                            && q == path@ {
                            None
                        } else {
                            section_value(sv, sk, q)
                        } by {
                        let svp = section_views(sections@);
                        assert(assoc_find(svp, sk) == if sk == key@ {
                            None
                        } else {
                            assoc_find(sv, sk)
                        });
                        if sk == key@ {
                            assert(assoc_find(sv, sk) == Some(tv));
                            if q != path@ {
                                assert(assoc_find(tv2, q) == assoc_find(tv, q));
                                assert(assoc_find(tv2, q) is None);
                            }
                        }
                    }
                }
                removed
            } else {
                sections.insert(i, (name, tab));
                proof {
                    assert(section_views(sections@) =~~= sv.update(
                        i as int,
                        (sv[i as int].0, tv2),
                    ));
                    lemma_assoc_update(sv, i as int, tv2);
                    assert forall|a: int, b: int|
                        0 <= a < b < section_views(sections@).len() implies (
                    #[trigger] section_views(sections@)[a]).0 != (#[trigger] section_views(
                        sections@,
                    )[b]).0 by {
                        assert(section_views(sections@)[a].0 == sv[a].0);
                        assert(section_views(sections@)[b].0 == sv[b].0);
                    }
                    assert forall|m: int|
                        0 <= m < section_views(sections@).len() implies unique_assoc(
                        (#[trigger] section_views(sections@)[m]).1,
                    ) by {
                        if m != i {
                            assert(section_views(sections@)[m].1 == sv[m].1);
                        }
                    }
                    assert forall|sk: Seq<char>, q: Seq<char>|
                        #[trigger] section_value(section_views(sections@), sk, q) == if sk == key@
                            && q == path@ {
                            None
                        } else {
                            section_value(sv, sk, q)
                        } by {
                        let svp = section_views(sections@);
                        assert(assoc_find(svp, sk) == if sk == key@ {
                            Some(tv2)
                        } else {
                            assoc_find(sv, sk)
                        });
                        if sk == key@ {
                            assert(assoc_find(sv, sk) == Some(tv));
                            assert(assoc_find(tv2, q) == if q == path@ {
                                None
                            } else {
                                assoc_find(tv, q)
                            });
                        }
                    }
                }
                removed
            }
        },
        None => {
            proof {
                lemma_assoc_find_none(sv, key@);
            }
            false
        },
    }
}

} // verus!
