//! PII masking policies for model columns.

use vstd::prelude::*;
use crate::text::to_owned_string;

verus! {

#[derive(Clone, Copy, Debug, PartialEq, Eq, Structural)]
pub enum MaskStrategy {
    /// SHA-256 of the value.
    Hash,
    /// The constant '***'.
    Redact,
    /// First and last two characters kept: 'ab***yz'.
    Partial,
    /// The value itself.
    Unmasked,
}

/// `CAST(<column> AS VARCHAR)`.
pub open spec fn as_varchar(column: Seq<char>) -> Seq<char> {
    "CAST("@ + column + " AS VARCHAR)"@
}

/// The SQL expression that masks `column` under a strategy.
pub open spec fn spec_mask(s: MaskStrategy, column: Seq<char>) -> Seq<char> {
    match s {
        MaskStrategy::Hash => "sha256("@ + as_varchar(column) + ")"@,
        MaskStrategy::Redact => "'***'"@,
        MaskStrategy::Partial => "CASE WHEN length("@ + as_varchar(column) + ") < 5 THEN '***' ELSE concat(substring("@
            + as_varchar(column) + ", 1, 2), '***', substring("@ + as_varchar(column) + ", length("@
            + as_varchar(column) + ") - 1, 2)) END"@,
        MaskStrategy::Unmasked => column,
    }
}

pub open spec fn spec_mask_name(s: MaskStrategy) -> Seq<char> {
    match s {
        MaskStrategy::Hash => "hash"@,
        MaskStrategy::Redact => "redact"@,
        MaskStrategy::Partial => "partial"@,
        MaskStrategy::Unmasked => "none"@,
    }
}

fn cast_varchar(column: &str) -> (r: String)
    ensures
        r@ == as_varchar(column@),
{
    let mut r = to_owned_string("CAST(");
    r.append(column);
    r.append(" AS VARCHAR)");
    r
}

impl MaskStrategy {
    pub fn as_str(&self) -> (r: &'static str)
        ensures
            r@ == spec_mask_name(*self),
    {
        match self {
            MaskStrategy::Hash => "hash",
            MaskStrategy::Redact => "redact",
            MaskStrategy::Partial => "partial",
            MaskStrategy::Unmasked => "none",
        }
    }

    /// The SQL expression that masks `column`.
    pub fn apply(&self, column: &str) -> (r: String)
        ensures
            r@ == spec_mask(*self, column@),
    {
        match self {
            MaskStrategy::Hash => {
                let mut r = to_owned_string("sha256(");
                r.append(cast_varchar(column).as_str());
                r.append(")");
                r
            },
            MaskStrategy::Redact => to_owned_string("'***'"),
            MaskStrategy::Partial => {
                let c = cast_varchar(column);
                let mut r = to_owned_string("CASE WHEN length(");
                r.append(c.as_str());
                r.append(") < 5 THEN '***' ELSE concat(substring(");
                r.append(c.as_str());
                r.append(", 1, 2), '***', substring(");
                r.append(c.as_str());
                r.append(", length(");
                r.append(c.as_str());
                r.append(") - 1, 2)) END");
                r
            },
            MaskStrategy::Unmasked => to_owned_string(column),
        }
    }
}

} // verus!
