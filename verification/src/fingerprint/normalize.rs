//! # SQL Normalization
//!
//! The canonical text of a model's SQL: block comments (`/* ... */` on one
//! line) are removed and every run of whitespace becomes one space, with
//! none at either end.
//!
//! This is the textual part of normalization only. Parsing the SQL and
//! regenerating it in the PostgreSQL dialect (which also refuses SQL that
//! does not parse) is done by the `polyglot_sql` crate, which this build
//! does not have; so two texts that differ only in what regeneration would
//! rewrite (keyword case, quoting, redundant parentheses) get different
//! canonical texts here, and SQL that does not parse still gets one.

use vstd::prelude::*;
use crate::text::{push_char, join, views, join_strings};
use crate::titan_core::sql::TitanSQL;

verus! {

/// A character with the Unicode White_Space property (what
/// `char::is_whitespace` tests).
pub open spec fn is_whitespace(c: char) -> bool {
    ('\u{9}' <= c && c <= '\u{d}') || c == ' ' || c == '\u{85}' || c == '\u{a0}' || c == '\u{1680}'
        || ('\u{2000}' <= c && c <= '\u{200a}') || c == '\u{2028}' || c == '\u{2029}' || c == '\u{202f}'
        || c == '\u{205f}' || c == '\u{3000}'
}

pub fn char_is_whitespace(c: char) -> (r: bool)
    ensures
        r == is_whitespace(c),
{
    ('\u{9}' <= c && c <= '\u{d}') || c == ' ' || c == '\u{85}' || c == '\u{a0}' || c == '\u{1680}'
        || ('\u{2000}' <= c && c <= '\u{200a}') || c == '\u{2028}' || c == '\u{2029}' || c == '\u{202f}'
        || c == '\u{205f}' || c == '\u{3000}'
}

/// The words of `s`: its maximal runs of non-whitespace characters, in
/// order (what `str::split_whitespace` yields).
pub open spec fn words(s: Seq<char>) -> Seq<Seq<char>>
    decreases s.len(),
{
    if s.len() == 0 {
        Seq::empty()
    } else {
        let w = words(s.drop_last());
        let c = s.last();
        if is_whitespace(c) {
            w
        } else if s.len() >= 2 && !is_whitespace(s[s.len() - 2]) {
            w.update(w.len() - 1, w.last().push(c))
        } else {
            w.push(seq![c])
        }
    }
}

/// Where a block comment opened at the start of `s` closes: the position
/// just after the first `*/` found from `k` on, provided no line break comes
/// first.
pub open spec fn comment_close(s: Seq<char>, k: int) -> Option<int>
    decreases s.len() - k,
{
    if k < 0 || k + 1 >= s.len() {
        None
    } else if s[k] == '\n' {
        None
    } else if s[k] == '*' && s[k + 1] == '/' {
        Some(k + 2)
    } else {
        comment_close(s, k + 1)
    }
}

/// `s` with its block comments removed, scanning from the left: a `/*`
/// whose comment closes on the same line is removed through its `*/`;
/// every other character is kept.
pub open spec fn strip_comments(s: Seq<char>) -> Seq<char>
    decreases s.len(),
{
    if s.len() < 2 {
        s
    } else if s[0] == '/' && s[1] == '*' && comment_close(s, 2) is Some {
        let e = comment_close(s, 2)->Some_0;
        if 2 <= e <= s.len() { strip_comments(s.skip(e)) } else { s }
    } else {
        seq![s[0]] + strip_comments(s.skip(1))
    }
}

proof fn lemma_comment_close_range(s: Seq<char>, k: int)
    requires
        k >= 0,
    ensures
        comment_close(s, k) matches Some(e) ==> k + 2 <= e <= s.len(),
    decreases s.len() - k,
{
    if k + 1 < s.len() && s[k] != '\n' && !(s[k] == '*' && s[k + 1] == '/') {
        lemma_comment_close_range(s, k + 1);
    }
}

/// The canonical spacing of `s`: its words separated by single spaces.
pub open spec fn collapse_whitespace(s: Seq<char>) -> Seq<char> {
    join(words(s), " "@)
}

/// Position just after the comment that opens at `start` of the text
/// `s[start..]`, if it closes on its line.
fn find_comment_close(s: &str, n: usize, start: usize) -> (r: Option<usize>)
    requires
        n == s@.len(),
        start + 2 <= n,
    ensures
        match (r, comment_close(s@.skip(start as int), 2)) {
            (Some(e), Some(f)) => e == start + f,
            (None, None) => true,
            _ => false,
        },
{
    let ghost t = s@.skip(start as int);
    let mut k: usize = start + 2;
    while k < n - 1
        invariant
            n == s@.len(),
            start + 2 <= k <= n,
            t == s@.skip(start as int),
            comment_close(t, 2) == comment_close(t, k - start),
        decreases n - k,
    {
        let c = s.get_char(k);
        assert(t[k - start] == c);
        if c == '\n' {
            return None;
        }
        if c == '*' && s.get_char(k + 1) == '/' {
            assert(t[k - start + 1] == '/');
            return Some(k + 2);
        }
        k = k + 1;
    }
    None
}

/// Removes the block comments of `s` (see `strip_comments`).
pub fn remove_block_comments(s: &str) -> (r: String)
    ensures
        r@ == strip_comments(s@),
{
    let n = s.unicode_len();
    let mut out = String::new();
    assert(s@.skip(0) =~= s@);
    assert(out@ + strip_comments(s@.skip(0)) =~= strip_comments(s@));
    let mut i: usize = 0;
    while i < n
        invariant
            n == s@.len(),
            i <= n,
            out@ + strip_comments(s@.skip(i as int)) == strip_comments(s@),
        decreases n - i,
    {
        let ghost t = s@.skip(i as int);
        let c = s.get_char(i);
        assert(t[0] == c);
        if i + 1 < n && c == '/' && s.get_char(i + 1) == '*' {
            assert(t[1] == '*');
            match find_comment_close(s, n, i) {
                Some(e) => {
                    proof {
                        lemma_comment_close_range(t, 2);
                        assert(t.skip(e - i) =~= s@.skip(e as int));
                    }
                    i = e;
                    continue;
                },
                None => {},
            }
        }
        proof {
            if t.len() < 2 {
                assert(t =~= seq![c]);
                assert(s@.skip(i as int + 1) =~= Seq::<char>::empty());
            } else {
                assert(t.skip(1) =~= s@.skip(i as int + 1));
            }
        }
        let ghost before = out@;
        push_char(&mut out, c);
        assert(out@ + strip_comments(s@.skip(i as int + 1)) =~= before + strip_comments(t));
        i = i + 1;
    }
    assert(s@.skip(n as int) =~= Seq::<char>::empty());
    assert(out@ + strip_comments(s@.skip(n as int)) =~= out@);
    out
}

/// Splits `s` into its words (see `words`).
pub fn split_whitespace(s: &str) -> (r: Vec<String>)
    ensures
        views(r@) == words(s@),
{
    let n = s.unicode_len();
    let mut out: Vec<String> = Vec::new();
    let mut cur = String::new();
    let mut in_word = false;
    let mut i: usize = 0;
    while i < n
        invariant
            n == s@.len(),
            i <= n,
            in_word == (i > 0 && !is_whitespace(s@[i - 1])),
            in_word ==> views(out@).push(cur@) == words(s@.take(i as int)),
            !in_word ==> views(out@) == words(s@.take(i as int)),
            !in_word ==> cur@ == Seq::<char>::empty(),
        decreases n - i,
    {
        let c = s.get_char(i);
        let ghost p = s@.take(i as int + 1);
        assert(p.drop_last() =~= s@.take(i as int));
        assert(p.last() == c);
        if i > 0 {
            assert(p[p.len() - 2] == s@[i - 1]);
        }
        if char_is_whitespace(c) {
            if in_word {
                let ghost before = views(out@);
                let w = cur;
                out.push(w);
                cur = String::new();
                assert(views(out@) =~= before.push(w@));
            }
            in_word = false;
        } else {
            push_char(&mut cur, c);
            if !in_word {
                assert(cur@ =~= seq![c]);
            }
            in_word = true;
        }
        i = i + 1;
    }
    if in_word {
        let ghost before = views(out@);
        let w = cur;
        out.push(w);
        assert(views(out@) =~= before.push(w@));
    }
    assert(s@.take(n as int) =~= s@);
    out
}

pub struct Normalizer;

impl Normalizer {
    /// The canonical text of regenerated SQL: block comments removed, then
    /// whitespace collapsed.
    pub fn canonical_text(sql: &str) -> (r: TitanSQL)
        ensures
            r@ == collapse_whitespace(strip_comments(sql@)),
    {
        let stripped = remove_block_comments(sql);
        let ws = split_whitespace(stripped.as_str());
        TitanSQL::new(join_strings(&ws, " "))
    }
}

} // verus!
