//! The "Serialized Pipe" boundary type.

use vstd::prelude::*;

verus! {

/// TitanSQL is the "Serialized Pipe" boundary.
/// It wraps a SQL string that is guaranteed to be in the PostgreSQL dialect.
#[derive(Debug, Clone, PartialEq, Eq, Hash)]
pub struct TitanSQL(pub String);

impl View for TitanSQL {
    type V = Seq<char>;

    open spec fn view(&self) -> Seq<char> {
        self.0@
    }
}

impl TitanSQL {
    pub fn new(sql: String) -> (r: Self)
        ensures
            r@ == sql@,
    {
        TitanSQL(sql)
    }

    pub fn as_str(&self) -> (r: &str)
        ensures
            r@ == self@,
    {
        self.0.as_str()
    }

    pub fn into_inner(self) -> (r: String)
        ensures
            r@ == self@,
    {
        self.0
    }

    /// The text of the statement.
    pub fn to_string(&self) -> (r: String)
        ensures
            r@ == self@,
    {
        self.0.clone()
    }

    /// Builds a statement from a string slice.
    pub fn from_str_slice(sql: &str) -> (r: Self)
        ensures
            r@ == sql@,
    {
        TitanSQL(sql.to_owned())
    }
}

impl From<String> for TitanSQL {
    fn from(sql: String) -> (r: Self) {
        TitanSQL(sql)
    }
}

impl vstd::std_specs::convert::FromSpecImpl<String> for TitanSQL {
    open spec fn obeys_from_spec() -> bool {
        true
    }

    open spec fn from_spec(v: String) -> Self {
        TitanSQL(v)
    }
}

impl<'a> From<&'a str> for TitanSQL {
    fn from(sql: &'a str) -> (r: Self)
        ensures
            r@ == sql@,
    {
        TitanSQL(sql.to_owned())
    }
}

impl<'a> vstd::std_specs::convert::FromSpecImpl<&'a str> for TitanSQL {
    /// The statement's text is the slice's text; a spec function cannot
    /// name the `String` that holds it, so the trait-level law is not used
    /// and the method's own `ensures` states the result.
    open spec fn obeys_from_spec() -> bool {
        false
    }

    closed spec fn from_spec(v: &'a str) -> Self {
        arbitrary()
    }
}

} // verus!
