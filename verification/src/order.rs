//! Lexicographic order on text, and sorting by it.
//!
//! Strings order by their characters' code points, left to right, a proper
//! prefix first. UTF-8 preserves code-point order byte by byte, so this is
//! the order of Rust's `str` comparison.

use vstd::prelude::*;
use crate::text::views;

verus! {

broadcast use vstd::seq_lib::group_to_multiset_ensures;

/// `a` comes strictly before `b`.
pub open spec fn lex_lt(a: Seq<char>, b: Seq<char>) -> bool
    decreases a.len(),
{
    if a.len() == 0 {
        b.len() > 0
    } else if b.len() == 0 {
        false
    } else if a[0] != b[0] {
        a[0] < b[0]
    } else {
        lex_lt(a.drop_first(), b.drop_first())
    }
}

pub open spec fn lex_le(a: Seq<char>, b: Seq<char>) -> bool {
    a == b || lex_lt(a, b)
}

/// `s` is in ascending order.
pub open spec fn sorted_lex(s: Seq<Seq<char>>) -> bool {
    forall|i: int, j: int| 0 <= i < j < s.len() ==> lex_le(#[trigger] s[i], #[trigger] s[j])
}

pub proof fn lemma_lex_irreflexive(a: Seq<char>)
    ensures
        !lex_lt(a, a),
    decreases a.len(),
{
    if a.len() > 0 {
        lemma_lex_irreflexive(a.drop_first());
    }
}

pub proof fn lemma_lex_total(a: Seq<char>, b: Seq<char>)
    ensures
        lex_lt(a, b) || lex_lt(b, a) || a == b,
    decreases a.len(),
{
    if a.len() > 0 && b.len() > 0 {
        if a[0] == b[0] {
            lemma_lex_total(a.drop_first(), b.drop_first());
            if a.drop_first() == b.drop_first() {
                assert(a =~= seq![a[0]] + a.drop_first());
                assert(b =~= seq![b[0]] + b.drop_first());
            }
        }
    } else if a.len() == 0 && b.len() == 0 {
        assert(a =~= b);
    }
}

pub proof fn lemma_lex_asymmetric(a: Seq<char>, b: Seq<char>)
    ensures
        !(lex_lt(a, b) && lex_lt(b, a)),
    decreases a.len(),
{
    if a.len() > 0 && b.len() > 0 && a[0] == b[0] {
        lemma_lex_asymmetric(a.drop_first(), b.drop_first());
    }
}

pub proof fn lemma_lex_transitive(a: Seq<char>, b: Seq<char>, c: Seq<char>)
    requires
        lex_lt(a, b),
        lex_lt(b, c),
    ensures
        lex_lt(a, c),
    decreases a.len(),
{
    if a.len() > 0 && b.len() > 0 && c.len() > 0 {
        if a[0] == b[0] && b[0] == c[0] {
            lemma_lex_transitive(a.drop_first(), b.drop_first(), c.drop_first());
        }
    }
}

pub proof fn lemma_lex_le_transitive(a: Seq<char>, b: Seq<char>, c: Seq<char>)
    requires
        lex_le(a, b),
        lex_le(b, c),
    ensures
        lex_le(a, c),
{
    if lex_lt(a, b) && lex_lt(b, c) {
        lemma_lex_transitive(a, b, c);
    }
}

/// Whether `a` comes strictly before `b`.
pub fn str_lt(a: &str, b: &str) -> (r: bool)
    ensures
        r == lex_lt(a@, b@),
{
    let na = a.unicode_len();
    let nb = b.unicode_len();
    let mut i: usize = 0;
    assert(a@.skip(0) =~= a@);
    assert(b@.skip(0) =~= b@);
    while i < na && i < nb
        invariant
            na == a@.len(),
            nb == b@.len(),
            i <= na,
            i <= nb,
            lex_lt(a@, b@) == lex_lt(a@.skip(i as int), b@.skip(i as int)),
        decreases na - i,
    {
        let ca = a.get_char(i);
        let cb = b.get_char(i);
        assert(a@.skip(i as int)[0] == ca);
        assert(b@.skip(i as int)[0] == cb);
        if ca != cb {
            return ca < cb;
        }
        assert(a@.skip(i as int).drop_first() =~= a@.skip(i as int + 1));
        assert(b@.skip(i as int).drop_first() =~= b@.skip(i as int + 1));
        i = i + 1;
    }
    i < nb && i == na
}

/// Sorts strings into ascending order (the same elements, reordered).
pub fn sort_strings(v: &mut Vec<String>)
    ensures
        views(final(v)@).to_multiset() == views(old(v)@).to_multiset(),
        sorted_lex(views(final(v)@)),
{
    let n = v.len();
    if n == 0 {
        return;
    }
    let mut i: usize = 1;
    while i < n
        invariant
            1 <= i <= n,
            v@.len() == n,
            views(v@).to_multiset() == views(old(v)@).to_multiset(),
            sorted_lex(views(v@).take(i as int)),
        decreases n - i,
    {
        let ghost before = views(v@);
        let x = v.remove(i);
        let ghost xv = x@;
        assert(views(v@) =~= before.remove(i as int));
        let mut j: usize = 0;
        let mut found = false;
        while !found && j < i
            invariant
                j <= i,
                i < n,
                x@ == xv,
                v@.len() == n - 1,
                views(v@) == before.remove(i as int),
                forall|k: int| 0 <= k < j ==> !lex_lt(xv, #[trigger] views(v@)[k]),
                found ==> j < i && lex_lt(xv, views(v@)[j as int]),
            decreases i - j + (if found { 0int } else { 1int }),
        {
            assert(views(v@)[j as int] == v@[j as int]@);
            if str_lt(x.as_str(), v[j].as_str()) {
                found = true;
            } else {
                j = j + 1;
            }
        }
        let ghost mid = views(v@);
        v.insert(j, x);
        assert(views(v@) =~= mid.insert(j as int, xv));
        proof {
            assert(views(v@).to_multiset() == views(old(v)@).to_multiset()) by {
                vstd::seq_lib::to_multiset_remove(before, i as int);
                vstd::seq_lib::to_multiset_insert(mid, j as int, xv);
                assert(before[i as int] == xv);
            }
            let s = views(v@).take(i as int + 1);
            assert forall|a: int, b: int| 0 <= a < b < s.len() implies lex_le(#[trigger] s[a], #[trigger] s[b]) by {
                // positions before j hold elements not after x; position j holds x;
                // positions after j hold the sorted elements that x precedes
                let t = before.take(i as int);
                assert(forall|k: int| 0 <= k < i ==> mid[k] == t[k]);
                if b < j {
                    assert(s[a] == t[a] && s[b] == t[b]);
                } else if b == j {
                    assert(s[a] == t[a]);
                    assert(s[b] == xv);
                    lemma_lex_total(xv, t[a]);
                } else if a == j {
                    assert(s[a] == xv);
                    assert(s[b] == t[b - 1]);
                    if j < i {
                        assert(found);
                        assert(lex_lt(xv, mid[j as int]));
                        assert(mid[j as int] == t[j as int]);
                        if j as int != b - 1 {
                            assert(lex_le(t[j as int], t[b - 1]));
                        }
                        lemma_lex_le_transitive(xv, t[j as int], t[b - 1]);
                    }
                } else if a < j {
                    assert(s[a] == t[a] && s[b] == t[b - 1]);
                } else {
                    assert(s[a] == t[a - 1] && s[b] == t[b - 1]);
                }
            }
        }
        i = i + 1;
    }
    assert(views(v@).take(n as int) =~= views(v@));
}

} // verus!
