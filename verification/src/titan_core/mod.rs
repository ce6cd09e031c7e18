//! # Titan Core Types
//!
//! The fundamental types of the engine (such as `TitanSQL`) and the SQL
//! generators that the materializers rely on.

pub mod sql;
pub mod lineage;
pub mod lineage_diff;
pub mod dialect;
pub mod drift;
pub mod column_map;
pub mod masking;
pub mod shadow;
pub mod ci_diff;
pub mod lineage_extract;
pub mod audit;

pub use sql::TitanSQL;

use vstd::prelude::*;
use crate::text::push_char;

verus! {

/// The characters of `s` with every double quote doubled.
pub open spec fn escape_double_quotes(s: Seq<char>) -> Seq<char>
    decreases s.len(),
{
    if s.len() == 0 {
        Seq::empty()
    } else {
        let head = escape_double_quotes(s.drop_last());
        if s.last() == '"' {
            head.push('"').push('"')
        } else {
            head.push(s.last())
        }
    }
}

/// `ident` quoted for the PostgreSQL dialect: wrapped in double quotes, with
/// inner double quotes doubled.
pub open spec fn spec_quote_identifier(ident: Seq<char>) -> Seq<char> {
    seq!['"'] + escape_double_quotes(ident) + seq!['"']
}

/// Appends `escape_double_quotes(src)` to `out`.
pub(crate) fn push_escaped_quotes(out: &mut String, src: &str)
    ensures
        final(out)@ == old(out)@ + escape_double_quotes(src@),
{
    let n = src.unicode_len();
    let ghost start = out@;
    let mut i: usize = 0;
    while i < n
        invariant
            n == src@.len(),
            i <= n,
            out@ == start + escape_double_quotes(src@.take(i as int)),
        decreases n - i,
    {
        let c = src.get_char(i);
        assert(src@.take(i as int + 1).drop_last() =~= src@.take(i as int));
        if c == '"' {
            push_char(out, '"');
            push_char(out, '"');
        } else {
            push_char(out, c);
        }
        i = i + 1;
    }
    assert(src@.take(n as int) =~= src@);
}

/// Quotes an identifier for the PostgreSQL dialect (double quotes).
/// This ensures safety against reserved words and special characters.
pub fn quote_identifier(ident: &str) -> (r: String)
    ensures
        r@ == spec_quote_identifier(ident@),
{
    let mut out = String::new();
    push_char(&mut out, '"');
    push_escaped_quotes(&mut out, ident);
    push_char(&mut out, '"');
    assert(out@ =~= spec_quote_identifier(ident@));
    out
}


proof fn lemma_escape_len(s: Seq<char>)
    ensures
        escape_double_quotes(s).len() >= s.len(),
        s.len() > 0 ==> escape_double_quotes(s).len() > 0,
    decreases s.len(),
{
    if s.len() > 0 {
        lemma_escape_len(s.drop_last());
    }
}

/// Escaping is injective: different identifiers escape differently.
proof fn lemma_escape_injective(a: Seq<char>, b: Seq<char>)
    requires
        escape_double_quotes(a) == escape_double_quotes(b),
    ensures
        a == b,
    decreases a.len() + b.len(),
{
    lemma_escape_len(a);
    lemma_escape_len(b);
    if a.len() == 0 || b.len() == 0 {
        if a.len() != 0 || b.len() != 0 {
            assert(false);
        }
        assert(a =~= b);
    } else {
        let ea = escape_double_quotes(a.drop_last());
        let eb = escape_double_quotes(b.drop_last());
        if a.last() == '"' && b.last() == '"' {
            assert(ea =~= escape_double_quotes(a).drop_last().drop_last());
            assert(eb =~= escape_double_quotes(b).drop_last().drop_last());
            lemma_escape_injective(a.drop_last(), b.drop_last());
            assert(a =~= a.drop_last().push(a.last()));
            assert(b =~= b.drop_last().push(b.last()));
        } else if a.last() != '"' && b.last() != '"' {
            assert(escape_double_quotes(a).last() == a.last());
            assert(escape_double_quotes(b).last() == b.last());
            assert(ea =~= escape_double_quotes(a).drop_last());
            assert(eb =~= escape_double_quotes(b).drop_last());
            lemma_escape_injective(a.drop_last(), b.drop_last());
            assert(a =~= a.drop_last().push(a.last()));
            assert(b =~= b.drop_last().push(b.last()));
        } else if a.last() == '"' {
            assert(escape_double_quotes(a) == ea.push('"').push('"'));
            assert(escape_double_quotes(a).last() == '"');
            assert(escape_double_quotes(b) == eb.push(b.last()));
            assert(escape_double_quotes(b).last() != '"');
        } else {
            assert(escape_double_quotes(b) == eb.push('"').push('"'));
            assert(escape_double_quotes(b).last() == '"');
            assert(escape_double_quotes(a) == ea.push(a.last()));
            assert(escape_double_quotes(a).last() != '"');
        }
    }
}

/// Quoting loses nothing: two identifiers with the same quoted form are
/// the same identifier.
pub proof fn lemma_quote_identifier_injective(a: Seq<char>, b: Seq<char>)
    requires
        spec_quote_identifier(a) == spec_quote_identifier(b),
    ensures
        a == b,
{
    let qa = spec_quote_identifier(a);
    assert(escape_double_quotes(a) =~= qa.subrange(1, qa.len() - 1));
    assert(escape_double_quotes(b) =~= qa.subrange(1, qa.len() - 1));
    lemma_escape_injective(a, b);
}

/// The number of double quotes in `s`.
pub open spec fn count_quotes(s: Seq<char>) -> nat
    decreases s.len(),
{
    if s.len() == 0 {
        0
    } else {
        count_quotes(s.drop_last()) + if s.last() == '"' { 1nat } else { 0nat }
    }
}

/// `s` with each doubled double quote read back as one (the inside of a
/// quoted identifier, read from its end).
pub open spec fn unescape_double_quotes(s: Seq<char>) -> Seq<char>
    decreases s.len(),
{
    if s.len() == 0 {
        Seq::empty()
    } else if s.len() >= 2 && s.last() == '"' && s[s.len() - 2] == '"' {
        unescape_double_quotes(s.take(s.len() - 2)).push('"')
    } else {
        unescape_double_quotes(s.drop_last()).push(s.last())
    }
}

proof fn lemma_escape_round_trip(s: Seq<char>)
    ensures
        escape_double_quotes(s).len() == s.len() + count_quotes(s),
        unescape_double_quotes(escape_double_quotes(s)) == s,
    decreases s.len(),
{
    if s.len() > 0 {
        let e = escape_double_quotes(s.drop_last());
        lemma_escape_round_trip(s.drop_last());
        let es = escape_double_quotes(s);
        if s.last() == '"' {
            assert(es.take(es.len() - 2) =~= e);
        } else {
            assert(es.drop_last() =~= e);
        }
        assert(s =~= s.drop_last().push(s.last()));
    }
}

/// A quoted identifier is the identifier between two double quotes with
/// each inner double quote doubled: it is two characters longer than the
/// identifier plus one for each double quote in it, and reading the
/// doubled quotes back as single ones gives the identifier again.
pub proof fn lemma_quote_identifier_round_trip(ident: Seq<char>)
    ensures
        ({
            let q = spec_quote_identifier(ident);
            &&& q.len() == ident.len() + 2 + count_quotes(ident)
            &&& q[0] == '"'
            &&& q[q.len() - 1] == '"'
            &&& unescape_double_quotes(q.subrange(1, q.len() - 1)) == ident
        }),
{
    lemma_escape_round_trip(ident);
    let q = spec_quote_identifier(ident);
    assert(q.subrange(1, q.len() - 1) =~= escape_double_quotes(ident));
}

} // verus!
