//! # SQL Macro Placeholders
//!
//! SQL may embed macro expressions as `${ expression }`. Each placeholder
//! holds at least one character and ends at the first `}` after its `${`;
//! placeholders are found left to right without overlapping. The engine
//! evaluates each expression and the results take the placeholders'
//! places.

use vstd::prelude::*;
use crate::text::{push_char, views};

verus! {

/// Position of the first `}` in `s` from `k` on.
pub open spec fn brace_close(s: Seq<char>, k: int) -> Option<int>
    decreases s.len() - k,
{
    if k < 0 || k >= s.len() {
        None
    } else if s[k] == '}' {
        Some(k)
    } else {
        brace_close(s, k + 1)
    }
}

/// The end of a placeholder that opens at the start of `s`: the position of
/// its closing `}`.
pub open spec fn placeholder_end(s: Seq<char>) -> Option<int> {
    if s.len() >= 2 && s[0] == '$' && s[1] == '{' {
        match brace_close(s, 2) {
            Some(q) => if q >= 3 { Some(q) } else { None },
            None => None,
        }
    } else {
        None
    }
}

proof fn lemma_brace_close_range(s: Seq<char>, k: int)
    requires
        k >= 0,
    ensures
        brace_close(s, k) matches Some(q) ==> k <= q < s.len() && s[q] == '}',
    decreases s.len() - k,
{
    if k < s.len() && s[k] != '}' {
        lemma_brace_close_range(s, k + 1);
    }
}

/// The expressions of the placeholders of `s`, in order.
pub open spec fn placeholder_codes(s: Seq<char>) -> Seq<Seq<char>>
    decreases s.len(),
{
    if s.len() == 0 {
        Seq::empty()
    } else {
        match placeholder_end(s) {
            Some(q) => if 3 <= q < s.len() {
                seq![s.subrange(2, q)] + placeholder_codes(s.skip(q + 1))
            } else {
                Seq::empty()
            },
            None => placeholder_codes(s.skip(1)),
        }
    }
}

/// `s` with its placeholders replaced, in order, by `reps`.
pub open spec fn splice(s: Seq<char>, reps: Seq<Seq<char>>) -> Seq<char>
    decreases s.len(),
{
    if s.len() == 0 {
        s
    } else {
        match placeholder_end(s) {
            Some(q) => if 3 <= q < s.len() {
                reps[0] + splice(s.skip(q + 1), reps.skip(1))
            } else {
                s
            },
            None => seq![s[0]] + splice(s.skip(1), reps),
        }
    }
}

proof fn lemma_placeholder_end_range(s: Seq<char>)
    ensures
        placeholder_end(s) matches Some(q) ==> 3 <= q < s.len() && s[q] == '}',
{
    if s.len() >= 2 && s[0] == '$' && s[1] == '{' {
        lemma_brace_close_range(s, 2);
    }
}

/// The placeholder that opens at position `i` of `s`, if one does: the
/// position of its `}`.
fn placeholder_at(s: &str, n: usize, i: usize) -> (r: Option<usize>)
    requires
        n == s@.len(),
        i < n,
    ensures
        match (r, placeholder_end(s@.skip(i as int))) {
            (Some(q), Some(p)) => q == i + p,
            (None, None) => true,
            _ => false,
        },
{
    let ghost t = s@.skip(i as int);
    if i + 1 >= n || s.get_char(i) != '$' || s.get_char(i + 1) != '{' {
        return None;
    }
    assert(t[0] == '$' && t[1] == '{');
    let mut k: usize = i + 2;
    while k < n
        invariant
            n == s@.len(),
            i + 2 <= k <= n,
            t == s@.skip(i as int),
            t.len() >= 2 && t[0] == '$' && t[1] == '{',
            brace_close(t, 2) == brace_close(t, k - i),
        decreases n - k,
    {
        let c = s.get_char(k);
        assert(t[k - i] == c);
        if c == '}' {
            if k >= i + 3 {
                return Some(k);
            } else {
                return None;
            }
        }
        k = k + 1;
    }
    None
}

pub struct MacroExpander;

impl MacroExpander {
    /// The expressions of the placeholders of `sql`, in order.
    pub fn placeholders(sql: &str) -> (r: Vec<String>)
        ensures
            views(r@) == placeholder_codes(sql@),
    {
        let n = sql.unicode_len();
        let mut out: Vec<String> = Vec::new();
        let mut i: usize = 0;
        assert(sql@.skip(0) =~= sql@);
        while i < n
            invariant
                n == sql@.len(),
                i <= n,
                views(out@) + placeholder_codes(sql@.skip(i as int)) == placeholder_codes(sql@),
            decreases n - i,
        {
            let ghost t = sql@.skip(i as int);
            proof { lemma_placeholder_end_range(t); }
            match placeholder_at(sql, n, i) {
                Some(q) => {
                    let code = sql.substring_char(i + 2, q);
                    let ghost before = views(out@);
                    out.push(crate::text::to_owned_string(code));
                    assert(code@ =~= t.subrange(2, q - i));
                    assert(t.skip(q - i + 1) =~= sql@.skip(q as int + 1));
                    assert(views(out@) =~= before.push(code@));
                    i = q + 1;
                },
                None => {
                    assert(t.skip(1) =~= sql@.skip(i as int + 1));
                    i = i + 1;
                },
            }
        }
        assert(sql@.skip(n as int) =~= Seq::<char>::empty());
        assert(views(out@) + placeholder_codes(sql@.skip(n as int)) =~= views(out@));
        out
    }

    /// `sql` with its placeholders replaced, in order, by `expansions`.
    pub fn splice(sql: &str, expansions: &Vec<String>) -> (r: String)
        requires
            expansions@.len() == placeholder_codes(sql@).len(),
        ensures
            r@ == splice(sql@, views(expansions@)),
    {
        let n = sql.unicode_len();
        let mut out = String::new();
        let mut i: usize = 0;
        let mut j: usize = 0;
        assert(sql@.skip(0) =~= sql@);
        assert(views(expansions@).skip(0) =~= views(expansions@));
        while i < n
            invariant
                n == sql@.len(),
                i <= n,
                j <= expansions@.len(),
                expansions@.len() == placeholder_codes(sql@).len(),
                expansions@.len() - j == placeholder_codes(sql@.skip(i as int)).len(),
                out@ + splice(sql@.skip(i as int), views(expansions@).skip(j as int)) == splice(sql@, views(expansions@)),
            decreases n - i,
        {
            let ghost t = sql@.skip(i as int);
            let ghost reps = views(expansions@).skip(j as int);
            proof { lemma_placeholder_end_range(t); }
            match placeholder_at(sql, n, i) {
                Some(q) => {
                    assert(t.skip(q - i + 1) =~= sql@.skip(q as int + 1));
                    assert(placeholder_codes(t) =~= seq![t.subrange(2, q - i)] + placeholder_codes(sql@.skip(q as int + 1)));
                    assert(placeholder_codes(t).len() == 1 + placeholder_codes(sql@.skip(q as int + 1)).len());
                    assert(j < expansions@.len());
                    assert(j < expansions.len());
                    assert(reps[0] == expansions@[j as int]@);
                    assert(reps.skip(1) =~= views(expansions@).skip(j as int + 1));
                    let ghost before = out@;
                    out.append(expansions[j].as_str());
                    assert(out@ + splice(sql@.skip(q as int + 1), views(expansions@).skip(j as int + 1))
                        =~= before + splice(t, reps));
                    i = q + 1;
                    j = j + 1;
                },
                None => {
                    let c = sql.get_char(i);
                    assert(t[0] == c);
                    assert(t.skip(1) =~= sql@.skip(i as int + 1));
                    let ghost before = out@;
                    push_char(&mut out, c);
                    assert(out@ + splice(sql@.skip(i as int + 1), reps) =~= before + splice(t, reps));
                    i = i + 1;
                },
            }
        }
        assert(sql@.skip(n as int) =~= Seq::<char>::empty());
        assert(out@ + splice(sql@.skip(n as int), views(expansions@).skip(j as int)) =~= out@);
        out
    }
}

} // verus!
