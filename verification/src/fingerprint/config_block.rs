//! Removal of `{{ config(...) }}` blocks from rendered SQL before it is
//! normalized: a block is `{{`, optional whitespace, `config`, optional
//! whitespace, `(`, then everything up to the first `)` that is followed by
//! optional whitespace and `}}`. Blocks are found left to right and may span
//! lines.

use vstd::prelude::*;
use crate::text::push_char;
use crate::fingerprint::normalize::{is_whitespace, char_is_whitespace};

verus! {

/// First position from `k` on that is not whitespace.
pub open spec fn skip_ws(s: Seq<char>, k: int) -> int
    decreases s.len() - k,
{
    if k < 0 || k >= s.len() || !is_whitespace(s[k]) {
        k
    } else {
        skip_ws(s, k + 1)
    }
}

/// `s` holds `t` at position `k`.
pub open spec fn has_at(s: Seq<char>, k: int, t: Seq<char>) -> bool {
    0 <= k && k + t.len() <= s.len() && s.subrange(k, k + t.len()) == t
}

/// Where the block's closing `)` ... `}}` ends, searching for `)` from `k`.
pub open spec fn block_close(s: Seq<char>, k: int) -> Option<int>
    decreases s.len() - k,
{
    if k < 0 || k >= s.len() {
        None
    } else if s[k] == ')' && has_at(s, skip_ws(s, k + 1), "}}"@) {
        Some(skip_ws(s, k + 1) + 2)
    } else {
        block_close(s, k + 1)
    }
}

/// The end of a config block that opens at the start of `s`.
pub open spec fn block_end(s: Seq<char>) -> Option<int> {
    if has_at(s, 0, "{{"@) {
        let a = skip_ws(s, 2);
        if has_at(s, a, "config"@) {
            let b = skip_ws(s, a + 6);
            if has_at(s, b, "("@) { block_close(s, b + 1) } else { None }
        } else {
            None
        }
    } else {
        None
    }
}

/// `s` with its config blocks removed.
pub open spec fn strip_config_blocks(s: Seq<char>) -> Seq<char>
    decreases s.len(),
{
    if s.len() == 0 {
        s
    } else {
        match block_end(s) {
            Some(e) => if 1 <= e <= s.len() { strip_config_blocks(s.skip(e)) } else { s },
            None => seq![s[0]] + strip_config_blocks(s.skip(1)),
        }
    }
}

proof fn lemma_skip_ws_range(s: Seq<char>, k: int)
    requires
        0 <= k,
    ensures
        k <= skip_ws(s, k),
        k <= s.len() ==> skip_ws(s, k) <= s.len(),
    decreases s.len() - k,
{
    if k < s.len() && is_whitespace(s[k]) {
        lemma_skip_ws_range(s, k + 1);
    }
}

proof fn lemma_block_close_range(s: Seq<char>, k: int)
    requires
        0 <= k,
    ensures
        block_close(s, k) matches Some(e) ==> k + 3 <= e <= s.len(),
    decreases s.len() - k,
{
    reveal_strlit("}}");
    if k < s.len() {
        lemma_skip_ws_range(s, k + 1);
        if !(s[k] == ')' && has_at(s, skip_ws(s, k + 1), "}}"@)) {
            lemma_block_close_range(s, k + 1);
        }
    }
}

proof fn lemma_block_end_range(s: Seq<char>)
    ensures
        block_end(s) matches Some(e) ==> 1 <= e <= s.len(),
{
    if has_at(s, 0, "{{"@) {
        lemma_skip_ws_range(s, 2);
        let a = skip_ws(s, 2);
        if has_at(s, a, "config"@) {
            lemma_skip_ws_range(s, a + 6);
            let b = skip_ws(s, a + 6);
            if has_at(s, b, "("@) {
                lemma_block_close_range(s, b + 1);
            }
        }
    }
}

/// `skip_ws` on `s@.skip(base)`, computed on `s` itself.
fn skip_whitespace(s: &str, n: usize, base: usize, k: usize) -> (r: usize)
    requires
        n == s@.len(),
        base <= k <= n,
    ensures
        r as int == base + skip_ws(s@.skip(base as int), k - base),
        k <= r <= n,
{
    let ghost t = s@.skip(base as int);
    let mut j: usize = k;
    while j < n && char_is_whitespace(s.get_char(j))
        invariant
            n == s@.len(),
            base <= k <= j <= n,
            t == s@.skip(base as int),
            skip_ws(t, k - base) == skip_ws(t, j - base),
        decreases n - j,
    {
        assert(t[j - base] == s@[j as int]);
        j = j + 1;
    }
    if j < n {
        assert(t[j - base] == s@[j as int]);
    }
    j
}

/// Whether `s` holds `lit` at position `k`.
fn has_text_at(s: &str, n: usize, k: usize, lit: &str) -> (r: bool)
    requires
        n == s@.len(),
    ensures
        r == has_at(s@, k as int, lit@),
{
    let m = lit.unicode_len();
    if k > n || m > n - k {
        return false;
    }
    let mut j: usize = 0;
    while j < m
        invariant
            n == s@.len(),
            m == lit@.len(),
            k + m <= n,
            j <= m,
            forall|q: int| 0 <= q < j ==> s@[k + q] == lit@[q],
        decreases m - j,
    {
        if s.get_char(k + j) != lit.get_char(j) {
            assert(s@.subrange(k as int, k + m)[j as int] != lit@[j as int]);
            return false;
        }
        j = j + 1;
    }
    assert(s@.subrange(k as int, k + m) =~= lit@);
    true
}

proof fn lemma_has_at_shift(s: Seq<char>, base: int, k: int, t: Seq<char>)
    requires
        0 <= base <= s.len(),
        0 <= k,
    ensures
        has_at(s.skip(base), k, t) == has_at(s, base + k, t),
{
    if has_at(s, base + k, t) {
        assert(s.skip(base).subrange(k, k + t.len()) =~= s.subrange(base + k, base + k + t.len()));
    }
    if has_at(s.skip(base), k, t) {
        assert(s.skip(base).subrange(k, k + t.len()) =~= s.subrange(base + k, base + k + t.len()));
    }
}

/// The end of a config block that opens at position `i` of `s`, if one does.
fn config_block_at(s: &str, n: usize, i: usize) -> (r: Option<usize>)
    requires
        n == s@.len(),
        i < n,
    ensures
        match (r, block_end(s@.skip(i as int))) {
            (Some(e), Some(f)) => e == i + f,
            (None, None) => true,
            _ => false,
        },
{
    let ghost t = s@.skip(i as int);
    proof {
        reveal_strlit("{{");
        reveal_strlit("config");
        reveal_strlit("(");
        reveal_strlit("}}");
        lemma_has_at_shift(s@, i as int, 0, "{{"@);
    }
    if !has_text_at(s, n, i, "{{") {
        return None;
    }
    let a = skip_whitespace(s, n, i, i + 2);
    proof { lemma_has_at_shift(s@, i as int, a - i, "config"@); }
    if !has_text_at(s, n, a, "config") {
        return None;
    }
    proof { lemma_skip_ws_range(t, a - i + 6); }
    if a + 6 > n {
        return None;
    }
    let b = skip_whitespace(s, n, i, a + 6);
    proof { lemma_has_at_shift(s@, i as int, b - i, "("@); }
    if !has_text_at(s, n, b, "(") {
        return None;
    }
    let mut k: usize = b + 1;
    while k < n
        invariant
            n == s@.len(),
            i < b + 1 <= k <= n,
            t == s@.skip(i as int),
            block_end(t) == block_close(t, b + 1 - i),
            block_close(t, b + 1 - i) == block_close(t, k - i),
        decreases n - k,
    {
        assert(t[k - i] == s@[k as int]);
        if s.get_char(k) == ')' {
            let w = skip_whitespace(s, n, i, k + 1);
            proof {
                reveal_strlit("}}");
                lemma_has_at_shift(s@, i as int, w - i, "}}"@);
            }
            if has_text_at(s, n, w, "}}") {
                return Some(w + 2);
            }
        }
        k = k + 1;
    }
    None
}

/// Removes the config blocks of rendered SQL.
pub fn remove_config_blocks(s: &str) -> (r: String)
    ensures
        r@ == strip_config_blocks(s@),
{
    let n = s.unicode_len();
    let mut out = String::new();
    assert(s@.skip(0) =~= s@);
    assert(out@ + strip_config_blocks(s@.skip(0)) =~= strip_config_blocks(s@));
    let mut i: usize = 0;
    while i < n
        invariant
            n == s@.len(),
            i <= n,
            out@ + strip_config_blocks(s@.skip(i as int)) == strip_config_blocks(s@),
        decreases n - i,
    {
        let ghost t = s@.skip(i as int);
        proof { lemma_block_end_range(t); }
        match config_block_at(s, n, i) {
            Some(e) => {
                assert(t.skip(e - i) =~= s@.skip(e as int));
                i = e;
            },
            None => {
                let c = s.get_char(i);
                assert(t[0] == c);
                assert(t.skip(1) =~= s@.skip(i as int + 1));
                let ghost before = out@;
                push_char(&mut out, c);
                assert(out@ + strip_config_blocks(s@.skip(i as int + 1)) =~= before + strip_config_blocks(t));
                i = i + 1;
            },
        }
    }
    assert(s@.skip(n as int) =~= Seq::<char>::empty());
    assert(out@ + strip_config_blocks(s@.skip(n as int)) =~= out@);
    out
}

} // verus!
