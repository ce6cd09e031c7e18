//! Facts about sequences used by the set-like computations of the engine
//! (first occurrences, last occurrences, distinct elements).

use vstd::prelude::*;

verus! {

/// The elements of `s` without repetitions, in order of first appearance.
pub open spec fn distinct<A>(s: Seq<A>) -> Seq<A>
    decreases s.len(),
{
    if s.len() == 0 {
        Seq::empty()
    } else {
        let d = distinct(s.drop_last());
        if d.contains(s.last()) {
            d
        } else {
            d.push(s.last())
        }
    }
}

/// Position of the last occurrence of `x` in `s`; -1 when absent.
pub open spec fn last_index_of<A>(s: Seq<A>, x: A) -> int
    decreases s.len(),
{
    if s.len() == 0 {
        -1
    } else if s.last() == x {
        s.len() - 1
    } else {
        last_index_of(s.drop_last(), x)
    }
}

/// Position of the first occurrence of `x` in `s`; -1 when absent.
pub open spec fn first_index_of<A>(s: Seq<A>, x: A) -> int
    decreases s.len(),
{
    if s.len() == 0 {
        -1
    } else {
        let f = first_index_of(s.drop_last(), x);
        if f >= 0 {
            f
        } else if s.last() == x {
            s.len() - 1
        } else {
            -1
        }
    }
}

pub proof fn lemma_seq_push_contains<A>(d: Seq<A>, y: A, x: A)
    ensures
        d.push(y).contains(x) <==> (d.contains(x) || x == y),
{
    if d.contains(x) {
        let k = choose|k: int| 0 <= k < d.len() && d[k] == x;
        assert(d.push(y)[k] == x);
    }
    if x == y {
        assert(d.push(y)[d.len() as int] == x);
    }
    if d.push(y).contains(x) && x != y {
        let k = choose|k: int| 0 <= k < d.len() + 1 && d.push(y)[k] == x;
        assert(k < d.len());
        assert(d[k] == x);
    }
}

pub proof fn lemma_seq_drop_last_contains<A>(s: Seq<A>, x: A)
    requires
        s.len() > 0,
    ensures
        s.contains(x) <==> (s.drop_last().contains(x) || x == s.last()),
{
    assert(s =~= s.drop_last().push(s.last()));
    lemma_seq_push_contains(s.drop_last(), s.last(), x);
}

pub proof fn lemma_distinct<A>(s: Seq<A>)
    ensures
        distinct(s).no_duplicates(),
        forall|x: A| distinct(s).contains(x) <==> s.contains(x),
    decreases s.len(),
{
    if s.len() > 0 {
        let d = distinct(s.drop_last());
        lemma_distinct(s.drop_last());
        assert forall|x: A| distinct(s).contains(x) <==> s.contains(x) by {
            lemma_seq_drop_last_contains(s, x);
            lemma_seq_push_contains(d, s.last(), x);
        }
        if !d.contains(s.last()) {
            assert forall|i: int, j: int|
                0 <= i < d.len() + 1 && 0 <= j < d.len() + 1 && i != j
                implies d.push(s.last())[i] != d.push(s.last())[j] by {
                if i == d.len() {
                    assert(d[j] == d.push(s.last())[j]);
                } else if j == d.len() {
                    assert(d[i] == d.push(s.last())[i]);
                }
            }
        }
    }
}

pub proof fn lemma_last_index_of<A>(s: Seq<A>, x: A)
    ensures
        -1 <= last_index_of(s, x) < s.len(),
        last_index_of(s, x) >= 0 ==> s[last_index_of(s, x)] == x,
        forall|k: int| last_index_of(s, x) < k < s.len() ==> s[k] != x,
        last_index_of(s, x) == -1 <==> !s.contains(x),
    decreases s.len(),
{
    if s.len() > 0 {
        lemma_last_index_of(s.drop_last(), x);
        assert forall|k: int| 0 <= k < s.len() - 1 implies s.drop_last()[k] == s[k] by {}
        lemma_seq_drop_last_contains(s, x);
    }
}

pub proof fn lemma_first_index_of<A>(s: Seq<A>, x: A)
    ensures
        -1 <= first_index_of(s, x) < s.len(),
        first_index_of(s, x) >= 0 ==> s[first_index_of(s, x)] == x,
        forall|k: int| 0 <= k < s.len() && (first_index_of(s, x) == -1 || k < first_index_of(s, x)) ==> s[k] != x,
        first_index_of(s, x) == -1 <==> !s.contains(x),
    decreases s.len(),
{
    if s.len() > 0 {
        lemma_first_index_of(s.drop_last(), x);
        assert forall|k: int| 0 <= k < s.len() - 1 implies s.drop_last()[k] == s[k] by {}
        lemma_seq_drop_last_contains(s, x);
    }
}

/// A position holding `x` with no `x` after it is the last occurrence.
pub proof fn lemma_last_index_unique<A>(s: Seq<A>, x: A, i: int)
    requires
        0 <= i < s.len(),
        s[i] == x,
        forall|k: int| i < k < s.len() ==> s[k] != x,
    ensures
        last_index_of(s, x) == i,
{
    lemma_last_index_of(s, x);
    assert(s.contains(x));
}

/// A position holding `x` with no `x` before it is the first occurrence.
pub proof fn lemma_first_index_unique<A>(s: Seq<A>, x: A, i: int)
    requires
        0 <= i < s.len(),
        s[i] == x,
        forall|k: int| 0 <= k < i ==> s[k] != x,
    ensures
        first_index_of(s, x) == i,
{
    lemma_first_index_of(s, x);
    assert(s.contains(x));
}

} // verus!
