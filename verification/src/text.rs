//! Character-level string helpers shared by the SQL generators.

use vstd::prelude::*;
use crate::fingerprint::normalize::is_whitespace;
use crate::seqs::{distinct, last_index_of, lemma_distinct, lemma_last_index_of, lemma_last_index_unique, lemma_seq_push_contains};

verus! {

/// Appends one character to a `String` (std's `String::push`).
/// Trusted: the new contents are the old contents followed by `c`.
#[verifier::external_body]
pub(crate) fn push_char(s: &mut String, c: char)
    ensures
        final(s)@ == old(s)@.push(c),
{
    s.push(c);
}

/// Compares two string slices for equality (std's `<str as PartialEq>::eq`).
/// Trusted: the result is true exactly when both hold the same characters.
#[verifier::external_body]
pub(crate) fn str_eq(a: &str, b: &str) -> (r: bool)
    ensures
        r == (a@ == b@),
{
    a == b
}

/// Copies a string slice into a new `String`.
pub fn to_owned_string(s: &str) -> (r: String)
    ensures
        r@ == s@,
{
    s.to_owned()
}

/// The characters of an optional string.
pub open spec fn opt_view(o: Option<String>) -> Option<Seq<char>> {
    match o {
        Some(s) => Some(s@),
        None => None,
    }
}

/// The character sequences held by a sequence of strings.
pub open spec fn views(v: Seq<String>) -> Seq<Seq<char>> {
    v.map_values(|s: String| s@)
}

/// Position of the first string of `v` equal to `s`, if any.
pub fn index_of_str(v: &Vec<String>, s: &str) -> (r: Option<usize>)
    ensures
        match r {
            Some(j) => j < v.len() && v@[j as int]@ == s@
                && forall|k: int| 0 <= k < j ==> v@[k]@ != s@,
            None => forall|k: int| 0 <= k < v.len() ==> v@[k]@ != s@,
        },
        r is None <==> !views(v@).contains(s@),
{
    let mut i: usize = 0;
    while i < v.len()
        invariant
            i <= v.len(),
            forall|k: int| 0 <= k < i ==> v@[k]@ != s@,
        decreases v.len() - i,
    {
        if str_eq(v[i].as_str(), s) {
            assert(views(v@)[i as int] == s@);
            return Some(i);
        }
        i = i + 1;
    }
    assert forall|k: int| 0 <= k < views(v@).len() implies views(v@)[k] != s@ by {
        assert(views(v@)[k] == v@[k]@);
    }
    None
}

/// Position of the last string of `v` equal to `s`, if any.
pub fn last_index_of_str(v: &Vec<String>, s: &str) -> (r: Option<usize>)
    ensures
        match r {
            Some(j) => j as int == last_index_of(views(v@), s@),
            None => last_index_of(views(v@), s@) == -1,
        },
{
    proof { lemma_last_index_of(views(v@), s@); }
    let mut j: usize = v.len();
    while j > 0
        invariant
            j <= v.len(),
            forall|k: int| j <= k < v.len() ==> views(v@)[k] != s@,
        decreases j,
    {
        if str_eq(v[j - 1].as_str(), s) {
            proof { lemma_last_index_unique(views(v@), s@, j - 1); }
            return Some(j - 1);
        }
        assert(views(v@)[j - 1] == v@[j - 1]@);
        j = j - 1;
    }
    proof {
        if views(v@).contains(s@) {
            let k = choose|k: int| 0 <= k < views(v@).len() && views(v@)[k] == s@;
        }
    }
    None
}

/// The strings of `v` without repetitions, in order of first appearance.
pub fn distinct_strings(v: &Vec<String>) -> (r: Vec<String>)
    ensures
        views(r@) == distinct(views(v@)),
        views(r@).no_duplicates(),
{
    let mut r: Vec<String> = Vec::new();
    let mut i: usize = 0;
    while i < v.len()
        invariant
            i <= v.len(),
            views(r@) == distinct(views(v@).take(i as int)),
        decreases v.len() - i,
    {
        let ghost prev = views(v@).take(i as int);
        let ghost cur = views(v@).take(i as int + 1);
        assert(cur.drop_last() =~= prev);
        assert(cur.last() == v@[i as int]@);
        let found = index_of_str(&r, v[i].as_str());
        if found.is_none() {
            let ghost before = r@;
            let x = v[i].clone();
            r.push(x);
            assert(views(r@) =~= views(before).push(v@[i as int]@)) by {
                assert(views(r@).len() == views(before).len() + 1);
            }
        }
        i = i + 1;
    }
    assert(views(v@).take(v.len() as int) =~= views(v@));
    proof { lemma_distinct(views(v@)); }
    r
}

/// The strings of `parts` separated by `sep`.
pub open spec fn join(parts: Seq<Seq<char>>, sep: Seq<char>) -> Seq<char>
    decreases parts.len(),
{
    if parts.len() == 0 {
        Seq::empty()
    } else if parts.len() == 1 {
        parts[0]
    } else {
        join(parts.drop_last(), sep) + sep + parts.last()
    }
}

/// Joins `parts` with `sep` between consecutive entries.
pub fn join_strings(parts: &Vec<String>, sep: &str) -> (r: String)
    ensures
        r@ == join(views(parts@), sep@),
{
    let mut r = String::new();
    let mut i: usize = 0;
    while i < parts.len()
        invariant
            i <= parts.len(),
            r@ == join(views(parts@).take(i as int), sep@),
        decreases parts.len() - i,
    {
        let ghost pv = views(parts@).take(i as int + 1);
        assert(pv.drop_last() =~= views(parts@).take(i as int));
        assert(pv.last() == parts@[i as int]@);
        if i > 0 {
            r.append(sep);
        } else {
            assert(pv =~= seq![parts@[0]@]);
        }
        r.append(parts[i].as_str());
        i = i + 1;
    }
    assert(views(parts@).take(parts.len() as int) =~= views(parts@));
    r
}

/// The decimal digit for `d` (below ten).
pub open spec fn digit_char(d: nat) -> char {
    (48 + d) as char
}

/// The decimal digits of `n`, most significant first, without leading
/// zeros.
pub open spec fn decimal_nat(n: nat) -> Seq<char>
    decreases n,
{
    if n < 10 {
        seq![digit_char(n)]
    } else {
        decimal_nat(n / 10).push(digit_char(n % 10))
    }
}

/// Decimal text of a signed integer, as std's `Display` writes it: a minus
/// sign for a negative value, then the digits of its magnitude.
pub open spec fn decimal_i64(x: i64) -> Seq<char> {
    if x < 0 { seq!['-'] + decimal_nat((-x) as nat) } else { decimal_nat(x as nat) }
}

/// Decimal text of an unsigned integer, as std's `Display` writes it.
pub open spec fn decimal_u64(x: u64) -> Seq<char> {
    decimal_nat(x as nat)
}

/// Formats a signed integer (std's `i64::to_string`).
/// Trusted: the text is the decimal form `decimal_i64` that std's
/// `Display` documents.
#[verifier::external_body]
pub(crate) fn i64_to_string(x: i64) -> (r: String)
    ensures
        r@ == decimal_i64(x),
{
    x.to_string()
}

/// Formats an unsigned integer (std's `u64::to_string`).
/// Trusted: the text is the decimal form `decimal_u64` that std's
/// `Display` documents.
#[verifier::external_body]
pub(crate) fn u64_to_string(x: u64) -> (r: String)
    ensures
        r@ == decimal_u64(x),
{
    x.to_string()
}

/// std's Unicode upper-casing of a string.
pub uninterp spec fn str_to_uppercase(s: Seq<char>) -> Seq<char>;

/// std's Unicode lower-casing of a string.
pub uninterp spec fn str_to_lowercase(s: Seq<char>) -> Seq<char>;

/// Upper-cases a string (std's `str::to_uppercase`).
/// Trusted: the result is a function of the text alone, named `str_to_uppercase`.
#[verifier::external_body]
pub(crate) fn to_uppercase(s: &str) -> (r: String)
    ensures
        r@ == str_to_uppercase(s@),
{
    s.to_uppercase()
}

/// Lower-cases a string (std's `str::to_lowercase`).
/// Trusted: the result is a function of the text alone, named `str_to_lowercase`.
#[verifier::external_body]
pub(crate) fn to_lowercase(s: &str) -> (r: String)
    ensures
        r@ == str_to_lowercase(s@),
{
    s.to_lowercase()
}

/// `s` without its leading whitespace.
pub open spec fn trim_start(s: Seq<char>) -> Seq<char>
    decreases s.len(),
{
    if s.len() > 0 && is_whitespace(s[0]) { trim_start(s.drop_first()) } else { s }
}

/// `s` without its trailing whitespace.
pub open spec fn trim_end(s: Seq<char>) -> Seq<char>
    decreases s.len(),
{
    if s.len() > 0 && is_whitespace(s.last()) { trim_end(s.drop_last()) } else { s }
}

/// `s` without leading and trailing whitespace (characters with the
/// Unicode White_Space property), as std's `str::trim` documents it.
pub open spec fn str_trim(s: Seq<char>) -> Seq<char> {
    trim_end(trim_start(s))
}

/// Trims whitespace at both ends (std's `str::trim`).
/// Trusted: the result is `str_trim` of the text, as std documents.
#[verifier::external_body]
pub(crate) fn trim(s: &str) -> (r: &str)
    ensures
        r@ == str_trim(s@),
{
    s.trim()
}

/// ASCII lower-casing of one character.
pub open spec fn ascii_lower(c: char) -> char {
    if 'A' <= c && c <= 'Z' {
        ((c as u32) + 32) as char
    } else {
        c
    }
}

/// ASCII lower-casing of a string (`str::to_ascii_lowercase`).
pub open spec fn ascii_lowercase(s: Seq<char>) -> Seq<char> {
    s.map_values(|c: char| ascii_lower(c))
}

pub fn to_ascii_lowercase(s: &str) -> (r: String)
    ensures
        r@ == ascii_lowercase(s@),
{
    let n = s.unicode_len();
    let mut r = String::new();
    let mut i: usize = 0;
    while i < n
        invariant
            n == s@.len(),
            i <= n,
            r@ == ascii_lowercase(s@.take(i as int)),
        decreases n - i,
    {
        let c = s.get_char(i);
        let lc = if 'A' <= c && c <= 'Z' {
            let code: u8 = ((c as u32) + 32) as u8;
            code as char
        } else {
            c
        };
        push_char(&mut r, lc);
        assert(ascii_lowercase(s@.take(i as int + 1)) =~= ascii_lowercase(s@.take(i as int)).push(ascii_lower(c)));
        i = i + 1;
    }
    assert(s@.take(n as int) =~= s@);
    r
}

/// Whether `c` occurs in `s`.
pub fn contains_char(s: &str, c: char) -> (r: bool)
    ensures
        r == s@.contains(c),
{
    let n = s.unicode_len();
    let mut i: usize = 0;
    while i < n
        invariant
            n == s@.len(),
            i <= n,
            forall|k: int| 0 <= k < i ==> s@[k] != c,
        decreases n - i,
    {
        if s.get_char(i) == c {
            return true;
        }
        i = i + 1;
    }
    false
}

/// The pieces of `s` between occurrences of `sep` (std's `str::split` on a
/// character): always at least one piece.
pub open spec fn split_on(s: Seq<char>, sep: char) -> Seq<Seq<char>>
    decreases s.len(),
{
    if s.len() == 0 {
        seq![Seq::empty()]
    } else {
        let p = split_on(s.drop_last(), sep);
        if s.last() == sep {
            p.push(Seq::empty())
        } else {
            p.update(p.len() - 1, p.last().push(s.last()))
        }
    }
}

pub proof fn lemma_split_on_nonempty(s: Seq<char>, sep: char)
    ensures
        split_on(s, sep).len() >= 1,
    decreases s.len(),
{
    if s.len() > 0 {
        lemma_split_on_nonempty(s.drop_last(), sep);
    }
}

/// Splits `s` at each occurrence of `sep`.
pub fn split_char(s: &str, sep: char) -> (r: Vec<String>)
    ensures
        views(r@) == split_on(s@, sep),
{
    let n = s.unicode_len();
    let mut done: Vec<String> = Vec::new();
    let mut cur = String::new();
    let mut i: usize = 0;
    while i < n
        invariant
            n == s@.len(),
            i <= n,
            views(done@).push(cur@) == split_on(s@.take(i as int), sep),
        decreases n - i,
    {
        let c = s.get_char(i);
        let ghost prev = s@.take(i as int);
        assert(s@.take(i as int + 1).drop_last() =~= prev);
        assert(s@.take(i as int + 1).last() == c);
        proof { lemma_split_on_nonempty(prev, sep); }
        if c == sep {
            let ghost before = views(done@);
            let finished = cur;
            done.push(finished);
            cur = String::new();
            assert(views(done@) =~= before.push(finished@));
            assert(views(done@).push(cur@) =~= split_on(s@.take(i as int + 1), sep));
        } else {
            push_char(&mut cur, c);
            assert(views(done@).push(cur@) =~= split_on(s@.take(i as int + 1), sep));
        }
        i = i + 1;
    }
    assert(s@.take(n as int) =~= s@);
    let ghost before = views(done@);
    let last = cur;
    done.push(last);
    assert(views(done@) =~= before.push(last@));
    done
}

/// Each string of `v`, trimmed.
pub fn trim_all(v: &Vec<String>) -> (r: Vec<String>)
    ensures
        views(r@) == views(v@).map_values(|x: Seq<char>| str_trim(x)),
{
    let mut r: Vec<String> = Vec::new();
    let mut i: usize = 0;
    while i < v.len()
        invariant
            i <= v.len(),
            views(r@) == views(v@).take(i as int).map_values(|x: Seq<char>| str_trim(x)),
        decreases v.len() - i,
    {
        let t = trim(v[i].as_str());
        let ghost before = views(r@);
        r.push(to_owned_string(t));
        assert(views(v@).take(i as int + 1) =~= views(v@).take(i as int).push(v@[i as int]@));
        assert(views(r@) =~= views(v@).take(i as int + 1).map_values(|x: Seq<char>| str_trim(x))) by {
            assert(views(r@) =~= before.push(str_trim(v@[i as int]@)));
        }
        i = i + 1;
    }
    assert(views(v@).take(v.len() as int) =~= views(v@));
    r
}

/// `t` occurs in `s` as a contiguous run of characters.
pub open spec fn contains_sub(s: Seq<char>, t: Seq<char>) -> bool {
    exists|i: int| 0 <= i && i + t.len() <= s.len() && #[trigger] s.subrange(i, i + t.len()) == t
}

fn matches_at(s: &str, t: &str, i: usize, n: usize, m: usize) -> (r: bool)
    requires
        n == s@.len(),
        m == t@.len(),
        i + m <= n,
    ensures
        r == (s@.subrange(i as int, i + m) == t@),
{
    let mut j: usize = 0;
    while j < m
        invariant
            n == s@.len(),
            m == t@.len(),
            i + m <= n,
            j <= m,
            forall|k: int| 0 <= k < j ==> s@[i + k] == t@[k],
        decreases m - j,
    {
        if s.get_char(i + j) != t.get_char(j) {
            assert(s@.subrange(i as int, i + m)[j as int] != t@[j as int]);
            return false;
        }
        j = j + 1;
    }
    assert(s@.subrange(i as int, i + m) =~= t@);
    true
}

/// Whether `t` occurs in `s` (std's `str::contains` with a string pattern).
pub fn str_contains(s: &str, t: &str) -> (r: bool)
    ensures
        r == contains_sub(s@, t@),
{
    let n = s.unicode_len();
    let m = t.unicode_len();
    if m > n {
        return false;
    }
    if m == 0 {
        assert(s@.subrange(0int, 0int + t@.len()) =~= t@);
        return true;
    }
    let mut i: usize = 0;
    while i <= n - m
        invariant
            n == s@.len(),
            m == t@.len(),
            1 <= m <= n,
            i <= n - m + 1,
            forall|k: int| 0 <= k < i ==> #[trigger] s@.subrange(k, k + m) != t@,
        decreases n - m + 1 - i,
    {
        if matches_at(s, t, i, n, m) {
            return true;
        }
        i = i + 1;
    }
    false
}

} // verus!
