//! # Shadow Deployments
//!
//! Target rewriting for running pipelines in isolation.

use vstd::prelude::*;
use crate::text::{views, split_on, split_char, contains_char, to_owned_string, lemma_split_on_nonempty};

verus! {

#[derive(Debug)]
pub struct ShadowConfig {
    pub suffix: Option<String>,
    pub schema_override: Option<String>,
}

impl ShadowConfig {
    /// No schema override and the default suffix.
    pub fn default() -> (c: Self)
        ensures
            c.suffix is None,
            c.schema_override is None,
    {
        ShadowConfig { suffix: None, schema_override: None }
    }
}

/// Where a shadow run writes a target: into the override schema (keeping
/// the part after the last '.'), or beside the target with a suffix
/// ("_shadow" unless configured).
pub open spec fn spec_rewrite_target(target: Seq<char>, suffix: Option<Seq<char>>, schema: Option<Seq<char>>) -> Seq<char> {
    match schema {
        Some(s) => if target.contains('.') {
            s + "."@ + split_on(target, '.').last()
        } else {
            s + "."@ + target
        },
        None => match suffix {
            Some(x) => target + x,
            None => target + "_shadow"@,
        },
    }
}

pub open spec fn opt_str_view(o: Option<String>) -> Option<Seq<char>> {
    match o {
        Some(s) => Some(s@),
        None => None,
    }
}

pub struct ShadowRewriter;

impl ShadowRewriter {
    pub fn rewrite_target(target_name: &str, config: &ShadowConfig) -> (r: String)
        ensures
            r@ == spec_rewrite_target(target_name@, opt_str_view(config.suffix), opt_str_view(config.schema_override)),
    {
        match &config.schema_override {
            Some(schema) => {
                let mut r = schema.clone();
                r.append(".");
                if contains_char(target_name, '.') {
                    let parts = split_char(target_name, '.');
                    proof { crate::text::lemma_split_on_nonempty(target_name@, '.'); }
                    let last = &parts[parts.len() - 1];
                    assert(views(parts@)[parts@.len() - 1] == last@);
                    r.append(last.as_str());
                } else {
                    r.append(target_name);
                }
                r
            },
            None => {
                let mut r = to_owned_string(target_name);
                match &config.suffix {
                    Some(x) => r.append(x.as_str()),
                    None => r.append("_shadow"),
                }
                r
            },
        }
    }
}

/// The last piece of a split holds no separator.
proof fn lemma_split_last_free(s: Seq<char>, sep: char)
    ensures
        !split_on(s, sep).last().contains(sep),
    decreases s.len(),
{
    if s.len() > 0 {
        lemma_split_on_nonempty(s.drop_last(), sep);
        lemma_split_last_free(s.drop_last(), sep);
        let p = split_on(s.drop_last(), sep);
        if s.last() != sep {
            let l = p.last().push(s.last());
            assert forall|i: int| 0 <= i < l.len() implies l[i] != sep by {
                if i < l.len() - 1 {
                    assert(l[i] == p.last()[i]);
                }
            }
        }
    }
}

/// Text ending in a separator and then a piece free of separators splits
/// with that piece last.
proof fn lemma_split_last_after_sep(p: Seq<char>, sep: char, piece: Seq<char>)
    requires
        !piece.contains(sep),
    ensures
        split_on(p.push(sep) + piece, sep).last() == piece,
    decreases piece.len(),
{
    let s = p.push(sep) + piece;
    if piece.len() == 0 {
        assert(s =~= p.push(sep));
        assert(s.drop_last() =~= p);
    } else {
        let shorter = piece.drop_last();
        assert(!shorter.contains(sep)) by {
            if shorter.contains(sep) {
                let i = choose|i: int| 0 <= i < shorter.len() && shorter[i] == sep;
                assert(piece[i] == sep);
            }
        }
        lemma_split_last_after_sep(p, sep, shorter);
        assert(s.drop_last() =~= p.push(sep) + shorter);
        assert(s.last() == piece.last());
        assert(piece.last() != sep) by {
            assert(piece[piece.len() - 1] == piece.last());
        }
        lemma_split_on_nonempty(s.drop_last(), sep);
        assert(piece =~= shorter.push(piece.last()));
    }
}

/// With a schema override, the suffix plays no part, and rewriting a
/// shadow target a second time gives it back unchanged.
pub proof fn lemma_rewrite_target_idempotent(target: Seq<char>, suffix: Option<Seq<char>>,
    other_suffix: Option<Seq<char>>, schema: Seq<char>)
    ensures
        spec_rewrite_target(target, suffix, Some(schema)) == spec_rewrite_target(target, other_suffix, Some(schema)),
        spec_rewrite_target(spec_rewrite_target(target, suffix, Some(schema)), other_suffix, Some(schema))
            == spec_rewrite_target(target, suffix, Some(schema)),
{
    let piece = if target.contains('.') { split_on(target, '.').last() } else { target };
    if target.contains('.') {
        lemma_split_last_free(target, '.');
    }
    let r = spec_rewrite_target(target, suffix, Some(schema));
    reveal_strlit(".");
    assert(r =~= schema.push('.') + piece);
    lemma_split_last_after_sep(schema, '.', piece);
    assert(r.contains('.')) by {
        assert(r[schema.len() as int] == '.');
    }
}

} // verus!
