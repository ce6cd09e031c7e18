//! Lightweight string interning for repeated identifiers, backed by
//! `lasso::ThreadedRodeo`.

use vstd::prelude::*;
use lasso::ThreadedRodeo;

verus! {

/// `lasso`'s concurrent interner, carried through unchanged.
#[verifier::external_type_specification]
#[verifier::external_body]
#[verifier::reject_recursive_types(K)]
#[verifier::reject_recursive_types(S)]
pub struct ExThreadedRodeo<K, S>(lasso::ThreadedRodeo<K, S>);

/// `lasso`'s 32-bit key, carried through unchanged.
#[verifier::external_type_specification]
#[verifier::external_body]
pub struct ExSpur(lasso::Spur);

/// The strings an interner holds, by key index.
pub uninterp spec fn rodeo_strings(r: ThreadedRodeo) -> Map<usize, Seq<char>>;

/// A new interner (`ThreadedRodeo::new`). Trusted: it holds no string.
#[verifier::external_body]
fn rodeo_new() -> (fresh: ThreadedRodeo)
    ensures
        rodeo_strings(fresh).len() == 0,
        rodeo_strings(fresh).dom().finite(),
{
    ThreadedRodeo::new()
}

/// Interns a string (`ThreadedRodeo::get_or_intern`), giving the index of
/// its key (`Key::into_usize`). Trusted: a string already held keeps its
/// key and nothing changes; otherwise it is stored under a key not used
/// before. The call panics once the 32-bit key space is exhausted, which the
/// bound on the number of strings excludes; within it the call does not
/// unwind.
#[verifier::external_body]
fn rodeo_intern(r: &mut ThreadedRodeo, s: &str) -> (k: usize)
    requires
        rodeo_strings(*old(r)).len() < 0xFFFF_FFFEusize,
        rodeo_strings(*old(r)).dom().finite(),
    ensures
        (exists|j: usize| rodeo_strings(*old(r)).contains_key(j) && rodeo_strings(*old(r))[j] == s@) ==> (
            rodeo_strings(*old(r)).contains_key(k) && rodeo_strings(*old(r))[k] == s@
            && rodeo_strings(*final(r)) == rodeo_strings(*old(r))),
        !(exists|j: usize| rodeo_strings(*old(r)).contains_key(j) && rodeo_strings(*old(r))[j] == s@) ==> (
            !rodeo_strings(*old(r)).contains_key(k)
            && rodeo_strings(*final(r)) == rodeo_strings(*old(r)).insert(k, s@)),
    no_unwind
{
    lasso::Key::into_usize(r.get_or_intern(s))
}

/// The string of a key (`ThreadedRodeo::resolve`, the key rebuilt with
/// `Key::try_from_usize`). Trusted: it is the string stored under that key.
#[verifier::external_body]
fn rodeo_resolve(r: &ThreadedRodeo, k: usize) -> (s: &str)
    requires
        rodeo_strings(*r).contains_key(k),
    ensures
        s@ == rodeo_strings(*r)[k],
{
    r.resolve(&<lasso::Spur as lasso::Key>::try_from_usize(k).unwrap())
}

/// An interned string handle.
#[derive(Debug, Clone, Copy, PartialEq, Eq, Hash)]
pub struct InternKey {
    index: usize,
}

/// A string interner.
pub struct Interner {
    inner: ThreadedRodeo,
}

impl InternKey {
    pub closed spec fn index(&self) -> usize {
        self.index
    }
}

impl Interner {
    /// The interned strings, by key.
    pub closed spec fn strings(&self) -> Map<usize, Seq<char>> {
        rodeo_strings(self.inner)
    }

    /// Each string is held under one key.
    pub closed spec fn wf(&self) -> bool {
        forall|i: usize, j: usize| #![trigger self.strings()[i], self.strings()[j]]
            self.strings().contains_key(i) && self.strings().contains_key(j)
            && self.strings()[i] == self.strings()[j] ==> i == j
    }

    /// What every interner keeps: each string under one key, finitely many.
    #[verifier::type_invariant]
    spec fn inv(self) -> bool {
        self.wf() && self.strings().dom().finite()
    }

    pub fn new() -> (r: Self)
        ensures
            r.wf(),
            r.strings() == Map::<usize, Seq<char>>::empty(),
    {
        Interner { inner: rodeo_new() }
    }

    /// Interns a string: the same string always gets the same key, and the
    /// key resolves to the string.
    pub fn intern(&mut self, s: &str) -> (k: InternKey)
        requires
            old(self).strings().len() < 0xFFFF_FFFEusize,
        ensures
            final(self).wf(),
            final(self).strings().dom().finite(),
            final(self).strings().len() <= old(self).strings().len() + 1,
            final(self).strings().contains_key(k.index()),
            forall|j: usize| old(self).strings().contains_key(j) && #[trigger] old(self).strings()[j] == s@
                ==> k.index() == j,
            final(self).strings()[k.index()] == s@,
            forall|j: usize| #[trigger] old(self).strings().contains_key(j) ==>
                final(self).strings().contains_key(j) && final(self).strings()[j] == old(self).strings()[j],
            (exists|j: usize| old(self).strings().contains_key(j) && old(self).strings()[j] == s@)
                ==> final(self).strings() == old(self).strings(),
    {
        proof { use_type_invariant(&*self); }
        let index = rodeo_intern(&mut self.inner, s);
        InternKey { index }
    }

    /// Two keys of an interner are the same key exactly when they stand for
    /// the same string.
    pub proof fn lemma_keys_match_strings(i: Interner, a: InternKey, b: InternKey)
        requires
            i.wf(),
            i.strings().contains_key(a.index()),
            i.strings().contains_key(b.index()),
        ensures
            a.index() == b.index() <==> i.strings()[a.index()] == i.strings()[b.index()],
    {
    }

    /// The string a key was interned for.
    pub fn resolve(&self, key: InternKey) -> (s: &str)
        requires
            self.strings().contains_key(key.index()),
        ensures
            s@ == self.strings()[key.index()],
    {
        rodeo_resolve(&self.inner, key.index)
    }
}

} // verus!
