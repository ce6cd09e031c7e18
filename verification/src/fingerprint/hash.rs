//! BLAKE3 logic hashes.

use vstd::prelude::*;
use crate::text::views;
use crate::order::{sorted_lex, sort_strings, lex_le, lex_lt, lemma_lex_asymmetric, lemma_lex_irreflexive};

verus! {

broadcast use vstd::seq_lib::group_to_multiset_ensures;

/// The lower-case hexadecimal BLAKE3 digest of `data`, as
/// `blake3::hash(data).to_hex()` writes it.
pub uninterp spec fn blake3_hex(data: Seq<u8>) -> Seq<char>;

/// Every character of `s` is a lower-case hexadecimal digit.
pub open spec fn is_lower_hex(s: Seq<char>) -> bool {
    forall|i: int| 0 <= i < s.len() ==> ('0' <= #[trigger] s[i] <= '9' || 'a' <= s[i] <= 'f')
}

/// BLAKE3 digest of `data` in lower-case hexadecimal (`blake3::hash`, then
/// `Hash::to_hex`). Trusted: the text is a function of the bytes alone,
/// named `blake3_hex`, and is 64 characters long, each a digit `0-9` or a
/// letter `a-f` (32 bytes, two hex digits each, as `to_hex` writes them).
#[verifier::external_body]
fn blake3_hex_digest(data: &[u8]) -> (r: String)
    ensures
        r@ == blake3_hex(data@),
        r@.len() == 64,
        is_lower_hex(r@),
{
    blake3::hash(data).to_hex().to_string()
}

/// The logical hash of a model.
#[derive(Debug, PartialEq, Eq, PartialOrd, Ord, Hash)]
pub struct LogicHash(String);

impl View for LogicHash {
    type V = Seq<char>;

    closed spec fn view(&self) -> Seq<char> {
        self.0@
    }
}

impl Clone for LogicHash {
    fn clone(&self) -> (r: Self)
        ensures
            r@ == self@,
    {
        LogicHash(self.0.clone())
    }
}

impl LogicHash {
    pub fn new(hash: String) -> (r: Self)
        ensures
            r@ == hash@,
    {
        LogicHash(hash)
    }

    pub fn as_str(&self) -> (r: &str)
        ensures
            r@ == self@,
    {
        self.0.as_str()
    }

    /// The text of the hash (what the hash displays as).
    pub fn to_string(&self) -> (r: String)
        ensures
            r@ == self@,
    {
        self.0.clone()
    }
}

/// The UTF-8 bytes of `parts`, one after another.
pub open spec fn concat_utf8(parts: Seq<Seq<char>>) -> Seq<u8>
    decreases parts.len(),
{
    if parts.len() == 0 {
        Seq::empty()
    } else {
        concat_utf8(parts.drop_last()) + vstd::utf8::encode_utf8(parts.last())
    }
}

/// Incremental BLAKE3 hashing of text: the digest covers every piece of
/// text given to `update`, in order.
pub struct TitanHasher {
    input: Vec<u8>,
}

impl View for TitanHasher {
    type V = Seq<u8>;

    /// The bytes absorbed so far.
    closed spec fn view(&self) -> Seq<u8> {
        self.input@
    }
}

impl TitanHasher {
    pub fn new() -> (h: Self)
        ensures
            h@ == Seq::<u8>::empty(),
    {
        TitanHasher { input: Vec::new() }
    }

    pub fn update(&mut self, data: &str)
        ensures
            final(self)@ == old(self)@ + vstd::utf8::encode_utf8(data@),
    {
        let bytes = data.as_bytes();
        let ghost before = self.input@;
        self.input.extend_from_slice(bytes);
        assert(self.input@ =~= before + bytes@);
    }

    pub fn finalize(self) -> (r: LogicHash)
        ensures
            r@ == blake3_hex(self@),
            r@.len() == 64,
            is_lower_hex(r@),
    {
        LogicHash(blake3_hex_digest(self.input.as_slice()))
    }
}

/// The text that marks an incremental run in a fingerprint.
pub open spec fn run_kind(is_inc: bool) -> Seq<char> {
    if is_inc { "incremental"@ } else { "initial"@ }
}

/// `h` is the logic hash of a model with normalized SQL `sql`, serialized
/// config `config` and parent hashes `parents`: the BLAKE3 digest of the
/// SQL, the config, the run kind and the parents in ascending order.
pub open spec fn is_logic_hash_of(h: Seq<char>, sql: Seq<char>, config: Seq<char>, parents: Seq<Seq<char>>,
    is_inc: bool) -> bool {
    exists|q: Seq<Seq<char>>| {
        &&& q.to_multiset() == parents.to_multiset()
        &&& sorted_lex(q)
        &&& h == blake3_hex(vstd::utf8::encode_utf8(sql) + vstd::utf8::encode_utf8(config)
            + vstd::utf8::encode_utf8(run_kind(is_inc)) + concat_utf8(q))
    }
}

pub open spec fn hash_views(s: Seq<LogicHash>) -> Seq<Seq<char>> {
    s.map_values(|h: LogicHash| h@)
}

impl TitanHasher {
    /// The logic hash of a model: its normalized SQL, its serialized config,
    /// whether the run is incremental, and its parents' hashes in a
    /// deterministic (ascending) order.
    pub fn calculate(normalized_sql: &str, config_json: &str, parent_hashes: &Vec<LogicHash>, is_inc: bool)
        -> (r: LogicHash)
        ensures
            is_logic_hash_of(r@, normalized_sql@, config_json@, hash_views(parent_hashes@), is_inc),
            r@.len() == 64,
            is_lower_hex(r@),
    {
        let mut hasher = TitanHasher::new();
        hasher.update(normalized_sql);
        hasher.update(config_json);
        hasher.update(if is_inc { "incremental" } else { "initial" });
        let ghost head = hasher@;
        let mut sorted_parents: Vec<String> = Vec::new();
        let mut k: usize = 0;
        while k < parent_hashes.len()
            invariant
                k <= parent_hashes.len(),
                views(sorted_parents@) == hash_views(parent_hashes@).take(k as int),
            decreases parent_hashes.len() - k,
        {
            let ghost before = views(sorted_parents@);
            sorted_parents.push(parent_hashes[k].to_string());
            assert(views(sorted_parents@) =~= hash_views(parent_hashes@).take(k as int + 1)) by {
                assert(views(sorted_parents@) =~= before.push(parent_hashes@[k as int]@));
            }
            k = k + 1;
        }
        assert(hash_views(parent_hashes@).take(parent_hashes.len() as int) =~= hash_views(parent_hashes@));
        sort_strings(&mut sorted_parents);
        let ghost q = views(sorted_parents@);
        let mut i: usize = 0;
        while i < sorted_parents.len()
            invariant
                i <= sorted_parents.len(),
                q == views(sorted_parents@),
                hasher@ == head + concat_utf8(q.take(i as int)),
            decreases sorted_parents.len() - i,
        {
            hasher.update(sorted_parents[i].as_str());
            assert(q.take(i as int + 1).drop_last() =~= q.take(i as int));
            assert(q.take(i as int + 1).last() == sorted_parents@[i as int]@);
            i = i + 1;
        }
        assert(q.take(sorted_parents.len() as int) =~= q);
        let r = hasher.finalize();
        assert(r@ == blake3_hex(vstd::utf8::encode_utf8(normalized_sql@) + vstd::utf8::encode_utf8(config_json@)
            + vstd::utf8::encode_utf8(run_kind(is_inc)) + concat_utf8(q)));
        r
    }
}

/// Two ascending sequences with the same elements are equal.
pub proof fn lemma_sorted_permutation_unique(q1: Seq<Seq<char>>, q2: Seq<Seq<char>>)
    requires
        sorted_lex(q1),
        sorted_lex(q2),
        q1.to_multiset() == q2.to_multiset(),
    ensures
        q1 == q2,
    decreases q1.len(),
{
    vstd::seq_lib::to_multiset_len(q1);
    vstd::seq_lib::to_multiset_len(q2);
    if q1.len() == 0 {
        assert(q1 =~= q2);
    } else {
        let a = q1[0];
        let b = q2[0];
        vstd::seq_lib::to_multiset_contains(q1, a);
        vstd::seq_lib::to_multiset_contains(q2, a);
        vstd::seq_lib::to_multiset_contains(q1, b);
        vstd::seq_lib::to_multiset_contains(q2, b);
        assert(q1.contains(a)) by { assert(q1[0] == a); }
        assert(q2.contains(b)) by { assert(q2[0] == b); }
        let ka = choose|k: int| 0 <= k < q2.len() && q2[k] == a;
        let kb = choose|k: int| 0 <= k < q1.len() && q1[k] == b;
        assert(lex_le(b, a)) by {
            if ka > 0 { assert(lex_le(q2[0], q2[ka])); }
        }
        assert(lex_le(a, b)) by {
            if kb > 0 { assert(lex_le(q1[0], q1[kb])); }
        }
        lemma_lex_asymmetric(a, b);
        assert(a == b);
        let r1 = q1.remove(0);
        let r2 = q2.remove(0);
        vstd::seq_lib::to_multiset_remove(q1, 0);
        vstd::seq_lib::to_multiset_remove(q2, 0);
        assert(sorted_lex(r1)) by {
            assert forall|i: int, j: int| 0 <= i < j < r1.len() implies lex_le(#[trigger] r1[i], #[trigger] r1[j]) by {
                assert(r1[i] == q1[i + 1] && r1[j] == q1[j + 1]);
            }
        }
        assert(sorted_lex(r2)) by {
            assert forall|i: int, j: int| 0 <= i < j < r2.len() implies lex_le(#[trigger] r2[i], #[trigger] r2[j]) by {
                assert(r2[i] == q2[i + 1] && r2[j] == q2[j + 1]);
            }
        }
        lemma_sorted_permutation_unique(r1, r2);
        assert(q1 =~= seq![a] + r1);
        assert(q2 =~= seq![b] + r2);
    }
}

/// The logic hash does not depend on the order in which the parent hashes
/// are given: two logic hashes of the same SQL, config and run kind whose
/// parent lists hold the same hashes are equal.
pub proof fn lemma_logic_hash_parent_order_independent(h1: Seq<char>, h2: Seq<char>, sql: Seq<char>,
    config: Seq<char>, p1: Seq<Seq<char>>, p2: Seq<Seq<char>>, is_inc: bool)
    requires
        is_logic_hash_of(h1, sql, config, p1, is_inc),
        is_logic_hash_of(h2, sql, config, p2, is_inc),
        p1.to_multiset() == p2.to_multiset(),
    ensures
        h1 == h2,
{
    let q1 = choose|q: Seq<Seq<char>>| {
        &&& q.to_multiset() == p1.to_multiset()
        &&& sorted_lex(q)
        &&& h1 == blake3_hex(vstd::utf8::encode_utf8(sql) + vstd::utf8::encode_utf8(config)
            + vstd::utf8::encode_utf8(run_kind(is_inc)) + concat_utf8(q))
    };
    let q2 = choose|q: Seq<Seq<char>>| {
        &&& q.to_multiset() == p2.to_multiset()
        &&& sorted_lex(q)
        &&& h2 == blake3_hex(vstd::utf8::encode_utf8(sql) + vstd::utf8::encode_utf8(config)
            + vstd::utf8::encode_utf8(run_kind(is_inc)) + concat_utf8(q))
    };
    lemma_sorted_permutation_unique(q1, q2);
}

} // verus!
