//! Character and string helpers shared by the rest of the library.
//!
//! Strings are modelled as their sequences of characters (`Seq<char>`).
//! The few facts that depend on Unicode tables — which characters count as
//! whitespace, how a string folds to lower case — come in through trusted
//! wrappers around the standard library, each naming its result with an
//! uninterpreted function.

use vstd::prelude::*;
use vstd::string::*;

verus! {

/// What `char::is_whitespace` returns for a character.
pub uninterp spec fn is_white(c: char) -> bool;

/// Relies on char::is_whitespace: the White_Space property depends on the
/// character alone.
#[verifier::external_body]
pub fn is_whitespace_char(c: char) -> (r: bool)
    ensures
        r == is_white(c),
{
    c.is_whitespace()
}

/// What `str::to_lowercase` returns for a string.
pub uninterp spec fn lower_of(s: Seq<char>) -> Seq<char>;

/// Relies on str::to_lowercase: the result depends on the characters alone.
#[verifier::external_body]
pub fn to_lowercase(s: &str) -> (r: String)
    ensures
        r@ == lower_of(s@),
{
    s.to_lowercase()
}

/// Relies on String::push: appends exactly the given character.
#[verifier::external_body]
pub fn push_char(s: &mut String, c: char)
    ensures
        final(s)@ == old(s)@.push(c),
{
    s.push(c);
}

/// Character-wise string equality.
pub fn str_eq(a: &str, b: &str) -> (r: bool)
    ensures
        r == (a@ == b@),
{
    let an = a.unicode_len();
    let bn = b.unicode_len();
    if an != bn {
        return false;
    }
    let mut i: usize = 0;
    while i < an
        invariant
            an == a@.len(),
            bn == b@.len(),
            an == bn,
            0 <= i <= an,
            forall|j: int| 0 <= j < i ==> a@[j] == b@[j],
        decreases an - i,
    {
        if a.get_char(i) != b.get_char(i) {
            return false;
        }
        i = i + 1;
    }
    proof {
        assert(a@ =~= b@);
    }
    true
}

/// Whether `n` occurs as a contiguous substring of `h`.
pub open spec fn has_substring(h: Seq<char>, n: Seq<char>) -> bool {
    exists|i: int| 0 <= i <= h.len() - n.len() && #[trigger] h.subrange(i, i + n.len()) == n
}

/// Substring search, character by character.
pub fn str_contains(hay: &str, needle: &str) -> (r: bool)
    ensures
        r == has_substring(hay@, needle@),
{
    let hn = hay.unicode_len();
    let nn = needle.unicode_len();
    if nn > hn {
        return false;
    }
    if nn == 0 {
        proof {
            assert(hay@.subrange(0, 0 + needle@.len() as int) =~= needle@);
        }
        return true;
    }
    let mut i: usize = 0;
    while i <= hn - nn
        invariant
            hn == hay@.len(),
            nn == needle@.len(),
            1 <= nn <= hn,
            0 <= i <= hn - nn + 1,
            forall|k: int|
                0 <= k < i ==> #[trigger] hay@.subrange(k, k + nn as int) != needle@,
        decreases hn - i,
    {
        let mut j: usize = 0;
        let mut matches: bool = true;
        while j < nn
            invariant
                hn == hay@.len(),
                nn == needle@.len(),
                0 <= i <= hn - nn,
                0 <= j <= nn,
                matches ==> forall|m: int| 0 <= m < j ==> hay@[i + m] == needle@[m],
                !matches ==> hay@.subrange(i as int, i + nn as int) != needle@,
            decreases nn - j,
        {
            if hay.get_char(i + j) != needle.get_char(j) {
                proof {
                    assert(hay@.subrange(i as int, i + nn as int)[j as int] == hay@[i + j]);
                }
                matches = false;
                j = nn;
            } else {
                j = j + 1;
            }
        }
        if matches {
            proof {
                assert(hay@.subrange(i as int, i + nn as int) =~= needle@);
            }
            return true;
        }
        i = i + 1;
    }
    false
}

/// Copy of a character range of a string, addressed by character index.
pub fn substr(s: &str, from: usize, to: usize) -> (r: String)
    requires
        from <= to <= s@.len(),
    ensures
        r@ == s@.subrange(from as int, to as int),
{
    s.substring_char(from, to).to_owned()
}

/// Index of the first occurrence of `c` in `s`; `s.len()` when absent.
pub open spec fn find_idx(s: Seq<char>, c: char) -> nat
    decreases s.len(),
{
    if s.len() == 0 {
        0
    } else if s[0] == c {
        0
    } else {
        (1 + find_idx(s.drop_first(), c)) as nat
    }
}

pub proof fn lemma_find_idx(s: Seq<char>, c: char)
    ensures
        find_idx(s, c) <= s.len(),
        forall|j: int| 0 <= j < find_idx(s, c) ==> s[j] != c,
        find_idx(s, c) < s.len() ==> s[find_idx(s, c) as int] == c,
    decreases s.len(),
{
    if s.len() > 0 && s[0] != c {
        lemma_find_idx(s.drop_first(), c);
        assert forall|j: int| 0 <= j < find_idx(s, c) implies s[j] != c by {
            if j > 0 {
                assert(s.drop_first()[j - 1] == s[j]);
            }
        }
        if find_idx(s, c) < s.len() {
            assert(s.drop_first()[find_idx(s, c) - 1] == s[find_idx(s, c) as int]);
        }
    }
}

/// Index of the first occurrence of `c`, if any.
pub fn find_char(s: &str, c: char) -> (r: Option<usize>)
    ensures
        match r {
            Some(i) => i == find_idx(s@, c) && i < s@.len() && s@[i as int] == c,
            None => find_idx(s@, c) == s@.len(),
        },
{
    proof {
        lemma_find_idx(s@, c);
    }
    let n = s.unicode_len();
    let mut i: usize = 0;
    while i < n
        invariant
            n == s@.len(),
            0 <= i <= n,
            forall|j: int| 0 <= j < i ==> s@[j] != c,
            find_idx(s@, c) <= n,
            forall|j: int| 0 <= j < find_idx(s@, c) ==> s@[j] != c,
            find_idx(s@, c) < n ==> s@[find_idx(s@, c) as int] == c,
        decreases n - i,
    {
        if s.get_char(i) == c {
            proof {
                if i < find_idx(s@, c) {
                    assert(s@[i as int] != c);
                }
                if find_idx(s@, c) < i {
                    assert(s@[find_idx(s@, c) as int] != c);
                }
            }
            return Some(i);
        }
        i = i + 1;
    }
    proof {
        if find_idx(s@, c) < n {
            assert(s@[find_idx(s@, c) as int] != c);
        }
    }
    None
}

/// Index of the last occurrence of `c`, if any.
pub fn rfind_char(s: &str, c: char) -> (r: Option<usize>)
    ensures
        match r {
            Some(i) => i < s@.len() && s@[i as int] == c && forall|j: int|
                i < j < s@.len() ==> s@[j] != c,
            None => forall|j: int| 0 <= j < s@.len() ==> s@[j] != c,
        },
{
    let n = s.unicode_len();
    let mut i: usize = n;
    while i > 0
        invariant
            n == s@.len(),
            0 <= i <= n,
            forall|j: int| i <= j < n ==> s@[j] != c,
        decreases i,
    {
        i = i - 1;
        if s.get_char(i) == c {
            return Some(i);
        }
    }
    None
}

/// The suffix left after removing prefix `p`, when `s` starts with `p`.
pub fn strip_prefix_str(s: &str, p: &str) -> (r: Option<String>)
    ensures
        match r {
            Some(t) => p@.len() <= s@.len() && s@.subrange(0, p@.len() as int) == p@ && t@
                == s@.skip(p@.len() as int),
            None => !(p@.len() <= s@.len() && s@.subrange(0, p@.len() as int) == p@),
        },
{
    let sn = s.unicode_len();
    let pn = p.unicode_len();
    if pn > sn {
        return None;
    }
    let mut i: usize = 0;
    while i < pn
        invariant
            sn == s@.len(),
            pn == p@.len(),
            pn <= sn,
            0 <= i <= pn,
            forall|j: int| 0 <= j < i ==> s@[j] == p@[j],
        decreases pn - i,
    {
        if s.get_char(i) != p.get_char(i) {
            proof {
                assert(s@.subrange(0, p@.len() as int)[i as int] == s@[i as int]);
            }
            return None;
        }
        i = i + 1;
    }
    proof {
        assert(s@.subrange(0, p@.len() as int) =~= p@);
    }
    Some(substr(s, pn, sn))
}

/// The prefix left after removing suffix `p`, when `s` ends with `p`.
pub fn strip_suffix_str(s: &str, p: &str) -> (r: Option<String>)
    ensures
        match r {
            Some(t) => p@.len() <= s@.len() && s@.skip(s@.len() - p@.len()) == p@ && t@
                == s@.take(s@.len() - p@.len()),
            None => !(p@.len() <= s@.len() && s@.skip(s@.len() - p@.len()) == p@),
        },
{
    let sn = s.unicode_len();
    let pn = p.unicode_len();
    if pn > sn {
        return None;
    }
    let base = sn - pn;
    let mut i: usize = 0;
    while i < pn
        invariant
            sn == s@.len(),
            pn == p@.len(),
            pn <= sn,
            base == sn - pn,
            0 <= i <= pn,
            forall|j: int| 0 <= j < i ==> s@[base + j] == p@[j],
        decreases pn - i,
    {
        if s.get_char(base + i) != p.get_char(i) {
            proof {
                assert(s@.skip(base as int)[i as int] == s@[base + i]);
            }
            return None;
        }
        i = i + 1;
    }
    proof {
        assert(s@.skip(base as int) =~= p@);
    }
    Some(substr(s, 0, base))
}

/// Decimal digits and numbers.
pub open spec fn is_dec_digit(c: char) -> bool {
    '0' <= c <= '9'
}

pub open spec fn digit_val(c: char) -> int {
    c as int - '0' as int
}

pub open spec fn all_dec_digits(s: Seq<char>) -> bool {
    forall|i: int| 0 <= i < s.len() ==> is_dec_digit(#[trigger] s[i])
}

/// Value of a string of decimal digits, most significant first.
pub open spec fn dec_val(s: Seq<char>) -> int
    decreases s.len(),
{
    if s.len() == 0 {
        0
    } else {
        dec_val(s.drop_last()) * 10 + digit_val(s.last())
    }
}

/// Whether `s` is accepted by Rust's `FromStr` for unsigned integers
/// (an optional leading `+`, then one or more digits), range aside.
pub open spec fn is_uint_str(s: Seq<char>) -> bool {
    if s.len() > 0 && s[0] == '+' {
        s.len() > 1 && all_dec_digits(s.drop_first())
    } else {
        s.len() > 0 && all_dec_digits(s)
    }
}

pub open spec fn uint_val(s: Seq<char>) -> int {
    if s.len() > 0 && s[0] == '+' {
        dec_val(s.drop_first())
    } else {
        dec_val(s)
    }
}

pub proof fn lemma_dec_val_nonneg(s: Seq<char>)
    requires
        all_dec_digits(s),
    ensures
        dec_val(s) >= 0,
    decreases s.len(),
{
    if s.len() > 0 {
        assert(all_dec_digits(s.drop_last()));
        lemma_dec_val_nonneg(s.drop_last());
    }
}

/// A digit appended on the right can only grow the value.
pub proof fn lemma_dec_val_step(s: Seq<char>, i: int)
    requires
        all_dec_digits(s),
        0 <= i < s.len(),
    ensures
        dec_val(s.take(i + 1)) == dec_val(s.take(i)) * 10 + digit_val(s[i]),
        dec_val(s.take(i + 1)) >= dec_val(s.take(i)),
{
    assert(s.take(i + 1).drop_last() =~= s.take(i));
    assert(s.take(i + 1).last() == s[i]);
    assert(all_dec_digits(s.take(i)));
    lemma_dec_val_nonneg(s.take(i));
}

pub proof fn lemma_dec_val_mono(s: Seq<char>, i: int, j: int)
    requires
        all_dec_digits(s),
        0 <= i <= j <= s.len(),
    ensures
        dec_val(s.take(i)) <= dec_val(s.take(j)),
    decreases j - i,
{
    if i < j {
        lemma_dec_val_step(s, j - 1);
        lemma_dec_val_mono(s, i, j - 1);
    }
}

/// Parses a decimal `u32` the way Rust's `str::parse::<u32>` does.
pub fn parse_u32_str(s: &str) -> (r: Option<u32>)
    ensures
        match r {
            Some(v) => is_uint_str(s@) && uint_val(s@) <= u32::MAX && v == uint_val(s@),
            None => !(is_uint_str(s@) && uint_val(s@) <= u32::MAX),
        },
{
    let n = s.unicode_len();
    if n == 0 {
        return None;
    }
    let start: usize = if s.get_char(0) == '+' {
        1
    } else {
        0
    };
    if n == start {
        return None;
    }
    let ghost digits = s@.skip(start as int);
    let mut acc: u64 = 0;
    let mut i: usize = start;
    while i < n
        invariant
            n == s@.len(),
            start <= 1,
            start < n,
            start <= i <= n,
            digits == s@.skip(start as int),
            (start == 1) == (s@[0] == '+'),
            forall|j: int| 0 <= j < i - start ==> is_dec_digit(#[trigger] digits[j]),
            acc == dec_val(digits.take(i - start)),
            acc <= u32::MAX,
        decreases n - i,
    {
        let c = s.get_char(i);
        let cv = c as u32;
        if cv < 48 || cv > 57 {
            proof {
                assert(digits[i - start] == s@[i as int]);
                assert(!is_dec_digit(digits[i - start]));
            }
            return None;
        }
        let d = (cv - 48) as u64;
        proof {
            assert(digits[i - start] == s@[i as int]);
            assert(is_dec_digit(digits[i - start]));
            assert(d == digit_val(digits[i - start]));
        }
        let next = acc * 10 + d;
        proof {
            assert(digits.take(i - start + 1).drop_last() =~= digits.take(i - start));
            assert(digits.take(i - start + 1).last() == digits[i - start]);
        }
        if next > 0xFFFF_FFFF {
            proof {
                assert(dec_val(digits.take(i - start + 1)) == acc * 10 + d);
                if is_uint_str(s@) && uint_val(s@) <= u32::MAX {
                    if start == 0 {
                        assert(digits =~= s@);
                    } else {
                        assert(digits =~= s@.drop_first());
                    }
                    assert(all_dec_digits(digits));
                    lemma_dec_val_mono(digits, i - start + 1, digits.len() as int);
                    assert(digits.take(digits.len() as int) =~= digits);
                    assert(uint_val(s@) == dec_val(digits));
                    assert(false);
                }
            }
            return None;
        }
        acc = next;
        i = i + 1;
    }
    proof {
        assert(digits.take(n - start) =~= digits);
        assert(all_dec_digits(digits));
        if start == 0 {
            assert(digits =~= s@);
        } else {
            assert(digits =~= s@.drop_first());
        }
        assert(is_uint_str(s@));
        assert(uint_val(s@) == dec_val(digits));
    }
    Some(acc as u32)
}

/// Parses a decimal `u16` the way Rust's `str::parse::<u16>` does.
pub fn parse_u16_str(s: &str) -> (r: Option<u16>)
    ensures
        match r {
            Some(v) => is_uint_str(s@) && uint_val(s@) <= u16::MAX && v == uint_val(s@),
            None => !(is_uint_str(s@) && uint_val(s@) <= u16::MAX),
        },
{
    match parse_u32_str(s) {
        Some(v) => {
            if v <= 0xFFFF {
                Some(v as u16)
            } else {
                None
            }
        },
        None => None,
    }
}

/// Decimal rendering of a number, most significant digit first.
pub open spec fn dec_str(n: int) -> Seq<char>
    decreases n,
{
    if n < 0 {
        seq![]
    } else if n < 10 {
        seq![dec_digit_char(n)]
    } else {
        dec_str(n / 10).push(dec_digit_char(n % 10))
    }
}

pub open spec fn dec_digit_char(d: int) -> char {
    if d == 0 {
        '0'
    } else if d == 1 {
        '1'
    } else if d == 2 {
        '2'
    } else if d == 3 {
        '3'
    } else if d == 4 {
        '4'
    } else if d == 5 {
        '5'
    } else if d == 6 {
        '6'
    } else if d == 7 {
        '7'
    } else if d == 8 {
        '8'
    } else {
        '9'
    }
}

fn dec_digit_char_exec(d: u32) -> (r: char)
    requires
        d < 10,
    ensures
        r == dec_digit_char(d as int),
{
    if d == 0 {
        '0'
    } else if d == 1 {
        '1'
    } else if d == 2 {
        '2'
    } else if d == 3 {
        '3'
    } else if d == 4 {
        '4'
    } else if d == 5 {
        '5'
    } else if d == 6 {
        '6'
    } else if d == 7 {
        '7'
    } else if d == 8 {
        '8'
    } else {
        '9'
    }
}

/// Renders `n` in decimal, as `u32::to_string` does.
pub fn u32_to_string(n: u32) -> (r: String)
    ensures
        r@ == dec_str(n as int),
    decreases n,
{
    if n < 10 {
        let mut s = String::new();
        push_char(&mut s, dec_digit_char_exec(n));
        s
    } else {
        let mut s = u32_to_string(n / 10);
        push_char(&mut s, dec_digit_char_exec(n % 10));
        s
    }
}

/// Split on a separator character, keeping empty pieces, as `str::split` does.
pub open spec fn split_by(s: Seq<char>, c: char) -> Seq<Seq<char>>
    decreases s.len(),
    via split_by_dec
{
    let k = find_idx(s, c) as int;
    if k == s.len() {
        seq![s]
    } else {
        seq![s.take(k)] + split_by(s.skip(k + 1), c)
    }
}

#[via_fn]
proof fn split_by_dec(s: Seq<char>, c: char) {
    lemma_find_idx(s, c);
}

pub fn split_char(s: &str, c: char) -> (r: Vec<String>)
    ensures
        r.deep_view() == split_by(s@, c),
    decreases s@.len(),
{
    let n = s.unicode_len();
    match find_char(s, c) {
        None => {
            let mut r: Vec<String> = Vec::new();
            r.push(s.to_owned());
            proof {
                assert(r.deep_view() =~= split_by(s@, c));
            }
            r
        },
        Some(k) => {
            let head = substr(s, 0, k);
            let tail = substr(s, k + 1, n);
            let mut r: Vec<String> = Vec::new();
            r.push(head);
            let mut rest = split_char(tail.as_str(), c);
            r.append(&mut rest);
            proof {
                assert(tail@ =~= s@.skip(k + 1));
                assert(r.deep_view() =~= split_by(s@, c));
            }
            r
        },
    }
}

/// Length of the leading run of non-whitespace characters.
pub open spec fn nw_run(s: Seq<char>) -> nat
    decreases s.len(),
{
    if s.len() == 0 {
        0
    } else if is_white(s[0]) {
        0
    } else {
        (1 + nw_run(s.drop_first())) as nat
    }
}

pub proof fn lemma_nw_run(s: Seq<char>)
    ensures
        nw_run(s) <= s.len(),
        forall|j: int| 0 <= j < nw_run(s) ==> !is_white(s[j]),
        nw_run(s) < s.len() ==> is_white(s[nw_run(s) as int]),
    decreases s.len(),
{
    if s.len() > 0 && !is_white(s[0]) {
        lemma_nw_run(s.drop_first());
        assert forall|j: int| 0 <= j < nw_run(s) implies !is_white(s[j]) by {
            if j > 0 {
                assert(s.drop_first()[j - 1] == s[j]);
            }
        }
        if nw_run(s) < s.len() {
            assert(s.drop_first()[nw_run(s) - 1] == s[nw_run(s) as int]);
        }
    }
}

/// Length of the leading run of whitespace characters.
pub open spec fn w_run(s: Seq<char>) -> nat
    decreases s.len(),
{
    if s.len() == 0 {
        0
    } else if !is_white(s[0]) {
        0
    } else {
        (1 + w_run(s.drop_first())) as nat
    }
}

pub proof fn lemma_w_run(s: Seq<char>)
    ensures
        w_run(s) <= s.len(),
        forall|j: int| 0 <= j < w_run(s) ==> is_white(s[j]),
        w_run(s) < s.len() ==> !is_white(s[w_run(s) as int]),
    decreases s.len(),
{
    if s.len() > 0 && is_white(s[0]) {
        lemma_w_run(s.drop_first());
        assert forall|j: int| 0 <= j < w_run(s) implies is_white(s[j]) by {
            if j > 0 {
                assert(s.drop_first()[j - 1] == s[j]);
            }
        }
        if w_run(s) < s.len() {
            assert(s.drop_first()[w_run(s) - 1] == s[w_run(s) as int]);
        }
    }
}

/// The whitespace-separated tokens of `s`, in order; no token is empty.
pub open spec fn split_white(s: Seq<char>) -> Seq<Seq<char>>
    decreases s.len(),
    via split_white_dec
{
    if s.len() == 0 {
        seq![]
    } else if is_white(s[0]) {
        split_white(s.drop_first())
    } else {
        seq![s.take(nw_run(s) as int)] + split_white(s.skip(nw_run(s) as int))
    }
}

#[via_fn]
proof fn split_white_dec(s: Seq<char>) {
    lemma_nw_run(s);
}

/// Splits into whitespace-separated tokens, as `str::split_whitespace` does.
pub fn split_whitespace_tokens(s: &str) -> (r: Vec<String>)
    ensures
        r.deep_view() == split_white(s@),
    decreases s@.len(),
{
    let n = s.unicode_len();
    if n == 0 {
        let r: Vec<String> = Vec::new();
        proof {
            assert(r.deep_view() =~= split_white(s@));
        }
        return r;
    }
    if is_whitespace_char(s.get_char(0)) {
        let tail = substr(s, 1, n);
        let r = split_whitespace_tokens(tail.as_str());
        proof {
            assert(tail@ =~= s@.drop_first());
        }
        return r;
    }
    let mut k: usize = 1;
    while k < n && !is_whitespace_char(s.get_char(k))
        invariant
            n == s@.len(),
            1 <= k <= n,
            forall|j: int| 0 <= j < k ==> !is_white(s@[j]),
        decreases n - k,
    {
        k = k + 1;
    }
    proof {
        lemma_nw_run(s@);
        if nw_run(s@) < k {
            assert(!is_white(s@[nw_run(s@) as int]));
        }
        if k < nw_run(s@) {
            assert(!is_white(s@[k as int]));
        }
        assert(nw_run(s@) == k);
    }
    let head = substr(s, 0, k);
    let tail = substr(s, k, n);
    let mut r: Vec<String> = Vec::new();
    r.push(head);
    let mut rest = split_whitespace_tokens(tail.as_str());
    r.append(&mut rest);
    proof {
        assert(tail@ =~= s@.skip(k as int));
        assert(r.deep_view() =~= split_white(s@));
    }
    r
}

/// Length of the trailing run of whitespace characters.
pub open spec fn w_run_end(s: Seq<char>) -> nat
    decreases s.len(),
{
    if s.len() == 0 {
        0
    } else if !is_white(s.last()) {
        0
    } else {
        (1 + w_run_end(s.drop_last())) as nat
    }
}

pub proof fn lemma_w_run_end(s: Seq<char>)
    ensures
        w_run_end(s) <= s.len(),
        forall|j: int| s.len() - w_run_end(s) <= j < s.len() ==> is_white(s[j]),
        w_run_end(s) < s.len() ==> !is_white(s[s.len() - w_run_end(s) - 1]),
    decreases s.len(),
{
    if s.len() > 0 && is_white(s.last()) {
        lemma_w_run_end(s.drop_last());
        assert forall|j: int| s.len() - w_run_end(s) <= j < s.len() implies is_white(s[j]) by {
            if j < s.len() - 1 {
                assert(s.drop_last()[j] == s[j]);
            }
        }
        if w_run_end(s) < s.len() {
            assert(s.drop_last()[s.len() - w_run_end(s) - 1] == s[s.len() - w_run_end(s) - 1]);
        }
    }
}

/// What `str::trim` returns: the string with leading and trailing
/// whitespace removed.
pub open spec fn trim_spec(s: Seq<char>) -> Seq<char> {
    if w_run(s) == s.len() {
        seq![]
    } else {
        s.subrange(w_run(s) as int, s.len() - w_run_end(s))
    }
}

pub fn trim_str(s: &str) -> (r: String)
    ensures
        r@ == trim_spec(s@),
{
    proof {
        lemma_w_run(s@);
        lemma_w_run_end(s@);
    }
    let n = s.unicode_len();
    let mut a: usize = 0;
    while a < n && is_whitespace_char(s.get_char(a))
        invariant
            n == s@.len(),
            0 <= a <= n,
            forall|j: int| 0 <= j < a ==> is_white(s@[j]),
            w_run(s@) <= n,
            forall|j: int| 0 <= j < w_run(s@) ==> is_white(s@[j]),
            w_run(s@) < n ==> !is_white(s@[w_run(s@) as int]),
        decreases n - a,
    {
        a = a + 1;
    }
    proof {
        if a < w_run(s@) {
            assert(is_white(s@[a as int]));
        }
        if w_run(s@) < a {
            assert(is_white(s@[w_run(s@) as int]));
        }
        assert(a == w_run(s@));
    }
    if a == n {
        let r = String::new();
        proof {
            assert(r@ =~= trim_spec(s@));
        }
        return r;
    }
    let mut b: usize = n;
    while b > a && is_whitespace_char(s.get_char(b - 1))
        invariant
            n == s@.len(),
            a == w_run(s@),
            a < n,
            !is_white(s@[a as int]),
            a <= b <= n,
            forall|j: int| b <= j < n ==> is_white(s@[j]),
            w_run_end(s@) <= n,
            forall|j: int| n - w_run_end(s@) <= j < n ==> is_white(s@[j]),
            w_run_end(s@) < n ==> !is_white(s@[n - w_run_end(s@) - 1]),
        decreases b,
    {
        b = b - 1;
    }
    proof {
        // the backward scan stops exactly at the trailing-whitespace boundary
        let e = n - w_run_end(s@);
        if b < e {
            assert(is_white(s@[e - 1]));
        }
        if e < b {
            assert(is_white(s@[b - 1]));
        }
        assert(b == n - w_run_end(s@));
    }
    substr(s, a, b)
}

/// Concatenation of `parts` with a single separator character between.
pub open spec fn join_char(parts: Seq<Seq<char>>, c: char) -> Seq<char>
    decreases parts.len(),
{
    if parts.len() == 0 {
        seq![]
    } else if parts.len() == 1 {
        parts[0]
    } else {
        join_char(parts.drop_last(), c) + seq![c] + parts.last()
    }
}

pub fn join_strings(parts: &Vec<String>, c: char) -> (r: String)
    ensures
        r@ == join_char(parts.deep_view(), c),
{
    let mut r = String::new();
    let mut i: usize = 0;
    while i < parts.len()
        invariant
            0 <= i <= parts@.len(),
            r@ == join_char(parts.deep_view().take(i as int), c),
        decreases parts@.len() - i,
    {
        if i > 0 {
            push_char(&mut r, c);
        }
        r.append(parts[i].as_str());
        proof {
            let dv = parts.deep_view();
            assert(dv.take(i + 1).drop_last() =~= dv.take(i as int));
            assert(dv.take(i + 1).last() == dv[i as int]);
            if i == 0 {
                assert(r@ == join_char(dv.take(i + 1), c));
            }
        }
        i = i + 1;
    }
    proof {
        assert(parts.deep_view().take(parts@.len() as int) =~= parts.deep_view());
    }
    r
}

/// Like `join_strings`, over only the first `count` parts.
pub fn join_strings_prefix(parts: &Vec<String>, count: usize, c: char) -> (r: String)
    requires
        count <= parts@.len(),
    ensures
        r@ == join_char(parts.deep_view().take(count as int), c),
{
    let mut r = String::new();
    let mut i: usize = 0;
    while i < count
        invariant
            0 <= i <= count <= parts@.len(),
            r@ == join_char(parts.deep_view().take(i as int), c),
        decreases count - i,
    {
        if i > 0 {
            push_char(&mut r, c);
        }
        r.append(parts[i].as_str());
        proof {
            let dv = parts.deep_view();
            assert(dv.take(i + 1).drop_last() =~= dv.take(i as int));
            assert(dv.take(i + 1).last() == dv[i as int]);
            if i == 0 {
                assert(r@ == join_char(dv.take(i + 1), c));
            }
        }
        i = i + 1;
    }
    r
}

/// The string with every occurrence of `c` replaced by `rep`.
pub open spec fn replace_char_spec(s: Seq<char>, c: char, rep: char) -> Seq<char> {
    s.map_values(
        |x: char|
            if x == c {
                rep
            } else {
                x
            },
    )
}

pub fn replace_char(s: &str, c: char, rep: char) -> (r: String)
    ensures
        r@ == replace_char_spec(s@, c, rep),
{
    let n = s.unicode_len();
    let mut out = String::new();
    proof {
        assert(out@ =~= replace_char_spec(s@.take(0), c, rep));
    }
    let mut i: usize = 0;
    while i < n
        invariant
            n == s@.len(),
            0 <= i <= n,
            out@ == replace_char_spec(s@.take(i as int), c, rep),
        decreases n - i,
    {
        let x = s.get_char(i);
        let y = if x == c {
            rep
        } else {
            x
        };
        push_char(&mut out, y);
        proof {
            assert(out@ =~= replace_char_spec(s@.take(i + 1), c, rep));
        }
        i = i + 1;
    }
    proof {
        assert(s@.take(n as int) =~= s@);
    }
    out
}

/// The string with every CRLF pair collapsed to a single space.
pub open spec fn replace_crlf_spec(s: Seq<char>) -> Seq<char>
    decreases s.len(),
{
    if s.len() == 0 {
        seq![]
    } else if s.len() >= 2 && s[0] == '\r' && s[1] == '\n' {
        seq![' '] + replace_crlf_spec(s.skip(2))
    } else {
        seq![s[0]] + replace_crlf_spec(s.skip(1))
    }
}

pub fn replace_crlf(s: &str) -> (r: String)
    ensures
        r@ == replace_crlf_spec(s@),
{
    let n = s.unicode_len();
    let mut out = String::new();
    proof {
        assert(s@.skip(0) =~= s@);
        assert(out@ + replace_crlf_spec(s@) =~= replace_crlf_spec(s@));
    }
    let mut i: usize = 0;
    while i < n
        invariant
            n == s@.len(),
            0 <= i <= n,
            replace_crlf_spec(s@) == out@ + replace_crlf_spec(s@.skip(i as int)),
        decreases n - i,
    {
        proof {
            assert(s@.skip(i as int)[0] == s@[i as int]);
            if i + 1 < n {
                assert(s@.skip(i as int)[1] == s@[i + 1]);
            }
        }
        if i + 1 < n && s.get_char(i) == '\r' && s.get_char(i + 1) == '\n' {
            push_char(&mut out, ' ');
            proof {
                assert(s@.skip(i as int).skip(2) =~= s@.skip(i + 2));
                assert(replace_crlf_spec(s@) =~= out@ + replace_crlf_spec(s@.skip(i + 2)));
            }
            i = i + 2;
        } else {
            let x = s.get_char(i);
            push_char(&mut out, x);
            proof {
                assert(s@.skip(i as int).skip(1) =~= s@.skip(i + 1));
                assert(replace_crlf_spec(s@) =~= out@ + replace_crlf_spec(s@.skip(i + 1)));
            }
            i = i + 1;
        }
    }
    proof {
        assert(replace_crlf_spec(s@) =~= out@);
    }
    out
}

/// ASCII-case-insensitive character match, as `char::eq_ignore_ascii_case`.
pub open spec fn char_ieq(a: char, b: char) -> bool {
    a == b || (is_ascii_upper(a) && b as int == a as int + 32) || (is_ascii_upper(b) && a as int
        == b as int + 32)
}

pub open spec fn is_ascii_upper(c: char) -> bool {
    'A' <= c <= 'Z'
}

/// ASCII-case-insensitive string equality, as `str::eq_ignore_ascii_case`.
pub open spec fn str_ieq_spec(a: Seq<char>, b: Seq<char>) -> bool {
    a.len() == b.len() && forall|i: int| 0 <= i < a.len() ==> char_ieq(#[trigger] a[i], b[i])
}

pub fn str_eq_ignore_ascii_case(a: &str, b: &str) -> (r: bool)
    ensures
        r == str_ieq_spec(a@, b@),
{
    let an = a.unicode_len();
    let bn = b.unicode_len();
    if an != bn {
        return false;
    }
    let mut i: usize = 0;
    while i < an
        invariant
            an == a@.len(),
            bn == b@.len(),
            an == bn,
            0 <= i <= an,
            forall|j: int| 0 <= j < i ==> char_ieq(#[trigger] a@[j], b@[j]),
        decreases an - i,
    {
        let x = a.get_char(i) as u32;
        let y = b.get_char(i) as u32;
        let xl = if 65 <= x && x <= 90 {
            x + 32
        } else {
            x
        };
        let yl = if 65 <= y && y <= 90 {
            y + 32
        } else {
            y
        };
        if xl != yl {
            return false;
        }
        i = i + 1;
    }
    true
}

} // verus!

