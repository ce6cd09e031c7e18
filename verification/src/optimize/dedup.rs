//! # Deduplication Analysis
//!
//! Analyzes partition checksums to find redundant data across tables: two
//! partitions with the same checksum and row count hold the same data.

use vstd::prelude::*;
use crate::text::{views, distinct_strings};
use crate::seqs::{distinct, lemma_distinct, lemma_seq_push_contains};
use crate::order::{lex_lt, str_lt};

verus! {

#[derive(Debug)]
pub struct PartitionInfo {
    pub key: String,
    pub checksum: u64,
    pub row_count: u64,
}

/// Partitions shared by two tables.
#[derive(Debug)]
pub struct DedupPairStat {
    pub table_a: String,
    pub table_b: String,
    pub shared_partitions: usize,
    pub shared_rows: u64,
}

/// Partition and row counts of a deduplication analysis. The estimated
/// saving is `duplicate_rows / total_rows` (as a percentage).
#[derive(Debug)]
pub struct DedupStats {
    pub total_partitions: usize,
    pub unique_partitions: usize,
    pub duplicate_partitions: usize,
    pub total_rows: u64,
    pub duplicate_rows: u64,
    pub top_dedup_pairs: Vec<DedupPairStat>,
}

/// A partition as (table, checksum, row count).
pub type PartView = (Seq<char>, u64, u64);

pub open spec fn table_parts(t: Seq<char>, parts: Seq<PartitionInfo>) -> Seq<PartView> {
    parts.map_values(|p: PartitionInfo| (t, p.checksum, p.row_count))
}

/// Every partition of every table, in order.
pub open spec fn flat_parts(per: Seq<(String, Vec<PartitionInfo>)>) -> Seq<PartView>
    decreases per.len(),
{
    if per.len() == 0 {
        Seq::empty()
    } else {
        flat_parts(per.drop_last()) + table_parts(per.last().0@, per.last().1@)
    }
}

/// The content key of a partition: (checksum, row count).
pub open spec fn part_keys(fl: Seq<PartView>) -> Seq<(u64, u64)> {
    fl.map_values(|p: PartView| (p.1, p.2))
}

pub open spec fn sum_rows(fl: Seq<PartView>) -> int
    decreases fl.len(),
{
    if fl.len() == 0 { 0 } else { sum_rows(fl.drop_last()) + fl.last().2 }
}

/// Rows of one partition per distinct content key.
pub open spec fn sum_key_rows(ks: Seq<(u64, u64)>) -> int
    decreases ks.len(),
{
    if ks.len() == 0 { 0 } else { sum_key_rows(ks.drop_last()) + ks.last().1 }
}

/// Table `t` holds a partition with content key `k`.
pub open spec fn holds(fl: Seq<PartView>, t: Seq<char>, k: (u64, u64)) -> bool {
    fl.contains((t, k.0, k.1))
}

/// Number of content keys among `ks` that both tables hold.
pub open spec fn pair_count(fl: Seq<PartView>, a: Seq<char>, b: Seq<char>, ks: Seq<(u64, u64)>) -> nat
    decreases ks.len(),
{
    if ks.len() == 0 {
        0
    } else {
        pair_count(fl, a, b, ks.drop_last()) + if holds(fl, a, ks.last()) && holds(fl, b, ks.last()) { 1nat } else { 0nat }
    }
}

/// Rows of the content keys among `ks` that both tables hold.
pub open spec fn pair_rows(fl: Seq<PartView>, a: Seq<char>, b: Seq<char>, ks: Seq<(u64, u64)>) -> int
    decreases ks.len(),
{
    if ks.len() == 0 {
        0
    } else {
        pair_rows(fl, a, b, ks.drop_last()) + if holds(fl, a, ks.last()) && holds(fl, b, ks.last()) { ks.last().1 as int } else { 0 }
    }
}

/// A pair statistic as (table a, table b, shared partitions, shared rows).
pub open spec fn pair_view(p: DedupPairStat) -> (Seq<char>, Seq<char>, nat, int) {
    (p.table_a@, p.table_b@, p.shared_partitions as nat, p.shared_rows as int)
}

pub open spec fn pair_views(s: Seq<DedupPairStat>) -> Seq<(Seq<char>, Seq<char>, nat, int)> {
    s.map_values(|p: DedupPairStat| pair_view(p))
}


/// Table `a` precedes table `b` and the two share at least one partition.
pub open spec fn is_candidate(fl: Seq<PartView>, a: Seq<char>, b: Seq<char>) -> bool {
    lex_lt(a, b) && pair_count(fl, a, b, distinct(part_keys(fl))) > 0
}

/// The statistic of the pair `(a, b)`.
pub open spec fn candidate_view(fl: Seq<PartView>, a: Seq<char>, b: Seq<char>) -> (Seq<char>, Seq<char>, nat, int) {
    let dk = distinct(part_keys(fl));
    (a, b, pair_count(fl, a, b, dk), pair_rows(fl, a, b, dk))
}

/// The names of the tables, in order.
pub open spec fn table_names(per: Seq<(String, Vec<PartitionInfo>)>) -> Seq<Seq<char>> {
    per.map_values(|p: (String, Vec<PartitionInfo>)| p.0@)
}

pub open spec fn flat_views(s: Seq<(String, u64, u64)>) -> Seq<PartView> {
    s.map_values(|p: (String, u64, u64)| (p.0@, p.1, p.2))
}

proof fn lemma_sum_rows_nonneg(s: Seq<PartView>)
    ensures
        sum_rows(s) >= 0,
    decreases s.len(),
{
    if s.len() > 0 {
        lemma_sum_rows_nonneg(s.drop_last());
    }
}

proof fn lemma_sum_rows_append(s1: Seq<PartView>, s2: Seq<PartView>)
    ensures
        sum_rows(s1 + s2) == sum_rows(s1) + sum_rows(s2),
    decreases s2.len(),
{
    if s2.len() > 0 {
        lemma_sum_rows_append(s1, s2.drop_last());
        assert((s1 + s2).drop_last() =~= s1 + s2.drop_last());
    } else {
        assert(s1 + s2 =~= s1);
    }
}

proof fn lemma_sum_rows_prefix(s: Seq<PartView>, j: int)
    requires
        0 <= j <= s.len(),
    ensures
        sum_rows(s.take(j)) <= sum_rows(s),
{
    assert(s =~= s.take(j) + s.skip(j));
    lemma_sum_rows_append(s.take(j), s.skip(j));
    lemma_sum_rows_nonneg(s.skip(j));
}

proof fn lemma_flat_parts_step(per: Seq<(String, Vec<PartitionInfo>)>, i: int)
    requires
        0 <= i < per.len(),
    ensures
        flat_parts(per.take(i + 1)) == flat_parts(per.take(i)) + table_parts(per[i].0@, per[i].1@),
{
    assert(per.take(i + 1).drop_last() =~= per.take(i));
}

proof fn lemma_flat_parts_prefix(per: Seq<(String, Vec<PartitionInfo>)>, i: int)
    requires
        0 <= i <= per.len(),
    ensures
        sum_rows(flat_parts(per.take(i))) <= sum_rows(flat_parts(per)),
    decreases per.len(),
{
    if i < per.len() {
        let d = per.drop_last();
        assert(d.take(i) =~= per.take(i));
        lemma_flat_parts_prefix(d, i);
        lemma_sum_rows_append(flat_parts(d), table_parts(per.last().0@, per.last().1@));
        lemma_sum_rows_nonneg(table_parts(per.last().0@, per.last().1@));
    } else {
        assert(per.take(i) =~= per);
    }
}

/// Every table that holds a partition is one of the input tables.
proof fn lemma_flat_parts_tables(per: Seq<(String, Vec<PartitionInfo>)>, x: PartView)
    requires
        flat_parts(per).contains(x),
    ensures
        table_names(per).contains(x.0),
    decreases per.len(),
{
    let d = per.drop_last();
    let tp = table_parts(per.last().0@, per.last().1@);
    let k = choose|k: int| 0 <= k < flat_parts(per).len() && flat_parts(per)[k] == x;
    let names = table_names(per);
    if k < flat_parts(d).len() {
        assert(flat_parts(d)[k] == x);
        lemma_flat_parts_tables(d, x);
        let names_d = table_names(d);
        let m = choose|m: int| 0 <= m < names_d.len() && names_d[m] == x.0;
        assert(names[m] == x.0);
    } else {
        assert(tp[k - flat_parts(d).len()] == x);
        assert(names[per.len() - 1] == x.0);
    }
}

proof fn lemma_sum_key_rows_le(fl: Seq<PartView>)
    ensures
        0 <= sum_key_rows(distinct(part_keys(fl))) <= sum_rows(fl),
        distinct(part_keys(fl)).len() <= fl.len(),
    decreases fl.len(),
{
    if fl.len() > 0 {
        let f0 = fl.drop_last();
        lemma_sum_key_rows_le(f0);
        assert(part_keys(fl).drop_last() =~= part_keys(f0));
        let d = distinct(part_keys(f0));
        let x = part_keys(fl).last();
        assert(x == (fl.last().1, fl.last().2));
        if !d.contains(x) {
            assert(d.push(x).drop_last() =~= d);
        }
    }
}

proof fn lemma_sum_key_rows_prefix(ks: Seq<(u64, u64)>, j: int)
    requires
        0 <= j <= ks.len(),
    ensures
        0 <= sum_key_rows(ks.take(j)) <= sum_key_rows(ks),
    decreases ks.len(),
{
    if j < ks.len() {
        assert(ks.drop_last().take(j) =~= ks.take(j));
        lemma_sum_key_rows_prefix(ks.drop_last(), j);
    } else {
        assert(ks.take(j) =~= ks);
        if ks.len() > 0 {
            lemma_sum_key_rows_prefix(ks.drop_last(), j - 1);
            assert(ks.drop_last().take(j - 1) =~= ks.drop_last());
        }
    }
}

proof fn lemma_pair_bounds(fl: Seq<PartView>, a: Seq<char>, b: Seq<char>, ks: Seq<(u64, u64)>)
    ensures
        pair_count(fl, a, b, ks) <= ks.len(),
        0 <= pair_rows(fl, a, b, ks) <= sum_key_rows(ks),
    decreases ks.len(),
{
    if ks.len() > 0 {
        lemma_pair_bounds(fl, a, b, ks.drop_last());
    }
}

/// Flattens the tables' partitions and sums their rows.
fn flatten(per_table: &Vec<(String, Vec<PartitionInfo>)>) -> (r: (Vec<(String, u64, u64)>, u64))
    requires
        sum_rows(flat_parts(per_table@)) <= u64::MAX,
    ensures
        flat_views(r.0@) == flat_parts(per_table@),
        r.1 == sum_rows(flat_parts(per_table@)),
{
    let ghost per = per_table@;
    let mut flat: Vec<(String, u64, u64)> = Vec::new();
    let mut total: u64 = 0;
    let mut i: usize = 0;
    while i < per_table.len()
        invariant
            per == per_table@,
            i <= per.len(),
            flat_views(flat@) == flat_parts(per.take(i as int)),
            total == sum_rows(flat_parts(per.take(i as int))),
            sum_rows(flat_parts(per)) <= u64::MAX,
        decreases per.len() - i,
    {
        let table = &per_table[i].0;
        let parts = &per_table[i].1;
        let ghost tp = table_parts(table@, parts@);
        let ghost base = flat_parts(per.take(i as int));
        proof {
            lemma_flat_parts_step(per, i as int);
            lemma_flat_parts_prefix(per, i as int + 1);
            lemma_sum_rows_append(base, tp);
        }
        let mut j: usize = 0;
        while j < parts.len()
            invariant
                per == per_table@,
                i < per.len(),
                table@ == per[i as int].0@,
                parts@ == per[i as int].1@,
                tp == table_parts(table@, parts@),
                j <= parts.len(),
                flat_views(flat@) == base + tp.take(j as int),
                total == sum_rows(base + tp.take(j as int)),
                sum_rows(base) + sum_rows(tp) <= u64::MAX,
            decreases parts.len() - j,
        {
            let p = &parts[j];
            let ghost before = flat@;
            proof {
                assert(tp.take(j as int + 1).drop_last() =~= tp.take(j as int));
                assert((base + tp.take(j as int + 1)).drop_last() =~= base + tp.take(j as int));
                lemma_sum_rows_append(base, tp.take(j as int + 1));
                lemma_sum_rows_prefix(tp, j as int + 1);
            }
            total = total + p.row_count;
            flat.push((table.clone(), p.checksum, p.row_count));
            assert(flat_views(flat@) =~= flat_views(before).push((table@, p.checksum, p.row_count)));
            assert(base + tp.take(j as int + 1) =~= (base + tp.take(j as int)).push((table@, p.checksum, p.row_count)));
            j = j + 1;
        }
        assert(tp.take(parts.len() as int) =~= tp);
        i = i + 1;
    }
    assert(per.take(per.len() as int) =~= per);
    (flat, total)
}

fn contains_key(keys: &Vec<(u64, u64)>, k: (u64, u64)) -> (r: bool)
    ensures
        r == keys@.contains(k),
{
    let mut i: usize = 0;
    while i < keys.len()
        invariant
            i <= keys.len(),
            forall|m: int| 0 <= m < i ==> keys@[m] != k,
        decreases keys.len() - i,
    {
        if keys[i].0 == k.0 && keys[i].1 == k.1 {
            assert(keys@[i as int] == k);
            return true;
        }
        i = i + 1;
    }
    false
}

/// The distinct content keys of the partitions, in order of first
/// appearance, with the rows of one partition per key.
fn distinct_keys(flat: &Vec<(String, u64, u64)>, Ghost(total): Ghost<int>) -> (r: (Vec<(u64, u64)>, u64))
    requires
        sum_rows(flat_views(flat@)) == total,
        total <= u64::MAX,
    ensures
        r.0@ == distinct(part_keys(flat_views(flat@))),
        r.1 == sum_key_rows(r.0@),
{
    let ghost fv = flat_views(flat@);
    let mut keys: Vec<(u64, u64)> = Vec::new();
    let mut rows: u64 = 0;
    let mut i: usize = 0;
    while i < flat.len()
        invariant
            fv == flat_views(flat@),
            sum_rows(fv) <= u64::MAX,
            i <= flat.len(),
            keys@ == distinct(part_keys(fv.take(i as int))),
            rows == sum_key_rows(keys@),
        decreases flat.len() - i,
    {
        let k = (flat[i].1, flat[i].2);
        proof {
            assert(part_keys(fv.take(i as int + 1)).drop_last() =~= part_keys(fv.take(i as int)));
            assert(fv.take(i as int + 1).drop_last() =~= fv.take(i as int));
            assert(part_keys(fv.take(i as int + 1)).last() == k);
            lemma_sum_key_rows_le(fv.take(i as int + 1));
            lemma_sum_rows_prefix(fv, i as int + 1);
        }
        if !contains_key(&keys, k) {
            let ghost before = keys@;
            keys.push(k);
            assert(keys@.drop_last() =~= before);
            rows = rows + k.1;
        }
        i = i + 1;
    }
    assert(fv.take(flat.len() as int) =~= fv);
    (keys, rows)
}

/// Whether table `t` holds a partition with content key `k`.
fn holds_exec(flat: &Vec<(String, u64, u64)>, t: &String, k: (u64, u64)) -> (r: bool)
    ensures
        r == holds(flat_views(flat@), t@, k),
{
    let ghost fv = flat_views(flat@);
    let mut i: usize = 0;
    while i < flat.len()
        invariant
            fv == flat_views(flat@),
            i <= flat.len(),
            forall|m: int| 0 <= m < i ==> fv[m] != (t@, k.0, k.1),
        decreases flat.len() - i,
    {
        if flat[i].1 == k.0 && flat[i].2 == k.1 && flat[i].0 == *t {
            assert(fv[i as int] == (t@, k.0, k.1));
            return true;
        }
        i = i + 1;
    }
    false
}

/// Shared partitions and rows of tables `a` and `b`.
fn pair_stat(flat: &Vec<(String, u64, u64)>, a: &String, b: &String, keys: &Vec<(u64, u64)>) -> (r: (usize, u64))
    requires
        sum_key_rows(keys@) <= u64::MAX,
    ensures
        r.0 == pair_count(flat_views(flat@), a@, b@, keys@),
        r.1 == pair_rows(flat_views(flat@), a@, b@, keys@),
{
    let ghost fv = flat_views(flat@);
    let ghost ks = keys@;
    let mut count: usize = 0;
    let mut rows: u64 = 0;
    let mut i: usize = 0;
    while i < keys.len()
        invariant
            fv == flat_views(flat@),
            ks == keys@,
            sum_key_rows(ks) <= u64::MAX,
            i <= keys.len(),
            count == pair_count(fv, a@, b@, ks.take(i as int)),
            rows == pair_rows(fv, a@, b@, ks.take(i as int)),
        decreases keys.len() - i,
    {
        let k = keys[i];
        proof {
            assert(ks.take(i as int + 1).drop_last() =~= ks.take(i as int));
            lemma_pair_bounds(fv, a@, b@, ks.take(i as int + 1));
            lemma_sum_key_rows_prefix(ks, i as int + 1);
        }
        if holds_exec(flat, a, k) && holds_exec(flat, b, k) {
            count = count + 1;
            rows = rows + k.1;
        }
        i = i + 1;
    }
    assert(ks.take(keys.len() as int) =~= ks);
    (count, rows)
}

/// Index pair `p` comes before index pair `q`.
pub open spec fn index_pair_lt(p: (int, int), q: (int, int)) -> bool {
    p.0 < q.0 || (p.0 == q.0 && p.1 < q.1)
}

pub open spec fn candidate_entry(fv: Seq<PartView>, nm: Seq<Seq<char>>, dk: Seq<(u64, u64)>,
    c: (usize, usize, usize, u64)) -> bool
{
    &&& c.0 < nm.len()
    &&& c.1 < nm.len()
    &&& lex_lt(nm[c.0 as int], nm[c.1 as int])
    &&& c.2 == pair_count(fv, nm[c.0 as int], nm[c.1 as int], dk)
    &&& c.2 > 0
    &&& c.3 == pair_rows(fv, nm[c.0 as int], nm[c.1 as int], dk)
}

/// Every pair of tables (as positions in `names`) that share a partition,
/// the first table preceding the second, with its statistic.
fn candidate_pairs(flat: &Vec<(String, u64, u64)>, names: &Vec<String>, keys: &Vec<(u64, u64)>)
    -> (c: Vec<(usize, usize, usize, u64)>)
    requires
        sum_key_rows(keys@) <= u64::MAX,
    ensures
        forall|p: int| 0 <= p < c@.len() ==> candidate_entry(flat_views(flat@), views(names@), keys@, #[trigger] c@[p]),
        forall|p: int, q: int| 0 <= p < q < c@.len() ==>
            index_pair_lt((c@[p].0 as int, c@[p].1 as int), (c@[q].0 as int, c@[q].1 as int)),
        forall|x: int, y: int| 0 <= x < names@.len() && 0 <= y < names@.len()
            && lex_lt(views(names@)[x], views(names@)[y])
            && pair_count(flat_views(flat@), views(names@)[x], views(names@)[y], keys@) > 0
            ==> exists|p: int| 0 <= p < c@.len() && c@[p].0 == x && c@[p].1 == y,
{
    let ghost fv = flat_views(flat@);
    let ghost nm = views(names@);
    let ghost dk = keys@;
    let n = names.len();
    let mut c: Vec<(usize, usize, usize, u64)> = Vec::new();
    let mut i: usize = 0;
    while i < n
        invariant
            fv == flat_views(flat@),
            nm == views(names@),
            dk == keys@,
            n == names.len(),
            sum_key_rows(dk) <= u64::MAX,
            i <= n,
            forall|p: int| 0 <= p < c@.len() ==> candidate_entry(fv, nm, dk, #[trigger] c@[p]),
            forall|p: int| 0 <= p < c@.len() ==> (#[trigger] c@[p]).0 < i,
            forall|p: int, q: int| 0 <= p < q < c@.len() ==>
                index_pair_lt((c@[p].0 as int, c@[p].1 as int), (c@[q].0 as int, c@[q].1 as int)),
            forall|x: int, y: int| 0 <= x < i && 0 <= y < n
                && lex_lt(nm[x], nm[y]) && pair_count(fv, nm[x], nm[y], dk) > 0
                ==> exists|p: int| 0 <= p < c@.len() && c@[p].0 == x && c@[p].1 == y,
        decreases n - i,
    {
        let mut j: usize = 0;
        while j < n
            invariant
                fv == flat_views(flat@),
                nm == views(names@),
                dk == keys@,
                n == names.len(),
                sum_key_rows(dk) <= u64::MAX,
                i < n,
                j <= n,
                forall|p: int| 0 <= p < c@.len() ==> candidate_entry(fv, nm, dk, #[trigger] c@[p]),
                forall|p: int| 0 <= p < c@.len() ==>
                    index_pair_lt(((#[trigger] c@[p]).0 as int, c@[p].1 as int), (i as int, j as int)),
                forall|p: int, q: int| 0 <= p < q < c@.len() ==>
                    index_pair_lt((c@[p].0 as int, c@[p].1 as int), (c@[q].0 as int, c@[q].1 as int)),
                forall|x: int, y: int| 0 <= x < n && 0 <= y < n && index_pair_lt((x, y), (i as int, j as int))
                    && lex_lt(nm[x], nm[y]) && pair_count(fv, nm[x], nm[y], dk) > 0
                    ==> exists|p: int| 0 <= p < c@.len() && c@[p].0 == x && c@[p].1 == y,
            decreases n - j,
        {
            assert(nm[i as int] == names@[i as int]@);
            assert(nm[j as int] == names@[j as int]@);
            if str_lt(names[i].as_str(), names[j].as_str()) {
                let (count, rows) = pair_stat(flat, &names[i], &names[j], keys);
                if count > 0 {
                    let ghost before = c@;
                    c.push((i, j, count, rows));
                    assert forall|x: int, y: int| 0 <= x < n && 0 <= y < n && index_pair_lt((x, y), (i as int, j as int + 1))
                        && lex_lt(nm[x], nm[y]) && pair_count(fv, nm[x], nm[y], dk) > 0
                        implies exists|p: int| 0 <= p < c@.len() && c@[p].0 == x && c@[p].1 == y by {
                        if x == i && y == j {
                            assert(c@[before.len() as int].0 == x);
                        } else {
                            let p = choose|p: int| 0 <= p < before.len() && before[p].0 == x && before[p].1 == y;
                            assert(c@[p] == before[p]);
                        }
                    }
                    assert forall|p: int| 0 <= p < c@.len() implies candidate_entry(fv, nm, dk, #[trigger] c@[p]) by {
                        if p < before.len() {
                            assert(c@[p] == before[p]);
                        }
                    }
                }
            }
            j = j + 1;
        }
        i = i + 1;
    }
    c
}

/// Positions of up to `limit` entries of `c` in descending order of shared
/// partitions; among equal counts the earlier entry comes first.
fn select_top(c: &Vec<(usize, usize, usize, u64)>, limit: usize) -> (sel: Vec<usize>)
    requires
        limit > 0,
    ensures
        sel@.len() <= limit,
        forall|t: int| 0 <= t < sel@.len() ==> (#[trigger] sel@[t]) < c@.len(),
        forall|t1: int, t2: int| 0 <= t1 < t2 < sel@.len() ==> sel@[t1] != sel@[t2],
        forall|t1: int, t2: int| 0 <= t1 < t2 < sel@.len() ==> c@[sel@[t1] as int].2 >= c@[sel@[t2] as int].2,
        (exists|i: int| 0 <= i < c@.len() && !#[trigger] sel@.contains(i as usize)) ==> sel@.len() == limit,
        forall|i: int| 0 <= i < c@.len() && !sel@.contains(i as usize) ==>
            (#[trigger] c@[i]).2 <= c@[sel@[sel@.len() - 1] as int].2,
{
    let n = c.len();
    let mut taken: Vec<bool> = Vec::new();
    let mut k: usize = 0;
    while k < n
        invariant
            n == c.len(),
            k <= n,
            taken@.len() == k,
            forall|m: int| 0 <= m < k ==> !taken@[m],
        decreases n - k,
    {
        taken.push(false);
        k = k + 1;
    }
    let mut sel: Vec<usize> = Vec::new();
    let mut all_taken = false;
    while sel.len() < limit && !all_taken
        invariant
            n == c.len(),
            taken@.len() == n,
            sel@.len() <= limit,
            forall|t: int| 0 <= t < sel@.len() ==> (#[trigger] sel@[t]) < n && taken@[sel@[t] as int],
            forall|m: int| 0 <= m < n && #[trigger] taken@[m] ==> sel@.contains(m as usize),
            forall|t1: int, t2: int| 0 <= t1 < t2 < sel@.len() ==> sel@[t1] != sel@[t2],
            forall|t: int, m: int| #![trigger sel@[t], c@[m]] 0 <= t < sel@.len() && 0 <= m < n && !taken@[m] ==>
                c@[m].2 <= c@[sel@[t] as int].2,
            forall|t1: int, t2: int| 0 <= t1 < t2 < sel@.len() ==> c@[sel@[t1] as int].2 >= c@[sel@[t2] as int].2,
            all_taken ==> forall|m: int| 0 <= m < n ==> taken@[m],
        decreases limit - sel@.len() + (if all_taken { 0int } else { 1int }),
    {
        let mut best: usize = n;
        let mut m: usize = 0;
        while m < n
            invariant
                n == c.len(),
                taken@.len() == n,
                m <= n,
                best == n || (best < m && !taken@[best as int]),
                best == n ==> forall|q: int| 0 <= q < m ==> taken@[q],
                best < n ==> forall|q: int| 0 <= q < m && !taken@[q] ==> c@[q].2 <= c@[best as int].2,
            decreases n - m,
        {
            if !taken[m] && (best == n || c[m].2 > c[best].2) {
                best = m;
            }
            m = m + 1;
        }
        if best == n {
            all_taken = true;
        } else {
            let ghost old_sel = sel@;
            let ghost old_taken = taken@;
            taken.set(best, true);
            sel.push(best);
            assert forall|q: int| 0 <= q < n && #[trigger] taken@[q] implies sel@.contains(q as usize) by {
                if q == best {
                    assert(sel@[old_sel.len() as int] == best);
                } else {
                    assert(old_taken[q]);
                    let t = choose|t: int| 0 <= t < old_sel.len() && old_sel[t] == q as usize;
                    assert(sel@[t] == old_sel[t]);
                }
            }
            assert forall|t: int| 0 <= t < sel@.len() implies (#[trigger] sel@[t]) < n && taken@[sel@[t] as int] by {
                if t < old_sel.len() {
                    assert(sel@[t] == old_sel[t]);
                }
            }
            assert forall|t1: int, t2: int| 0 <= t1 < t2 < sel@.len() implies sel@[t1] != sel@[t2] by {
                if t2 == old_sel.len() {
                    assert(old_taken[old_sel[t1] as int]);
                }
            }
            assert forall|t: int, q: int| #![trigger sel@[t], c@[q]] 0 <= t < sel@.len() && 0 <= q < n && !taken@[q] implies
                c@[q].2 <= c@[sel@[t] as int].2 by {
                assert(!old_taken[q]);
                if t < old_sel.len() {
                    assert(sel@[t] == old_sel[t]);
                }
            }
            assert forall|t1: int, t2: int| 0 <= t1 < t2 < sel@.len() implies
                c@[sel@[t1] as int].2 >= c@[sel@[t2] as int].2 by {
                if t2 == old_sel.len() {
                    assert(sel@[t1] == old_sel[t1]);
                    assert(!old_taken[best as int]);
                } else {
                    assert(sel@[t1] == old_sel[t1] && sel@[t2] == old_sel[t2]);
                }
            }
        }
    }
    assert(!all_taken ==> sel@.len() == limit);
    proof {
        if exists|i: int| 0 <= i < c@.len() && !#[trigger] sel@.contains(i as usize) {
            let i = choose|i: int| 0 <= i < c@.len() && !#[trigger] sel@.contains(i as usize);
            assert(!taken@[i]);
        }
    }
    assert forall|i: int| 0 <= i < c@.len() && !sel@.contains(i as usize) implies
        (#[trigger] c@[i]).2 <= c@[sel@[sel@.len() - 1] as int].2 by {
        assert(!taken@[i]);
        assert(sel@.len() == limit);
        let last = sel@.len() - 1;
        assert(c@[i].2 <= c@[sel@[last] as int].2);
    }
    sel
}

/// Computes deduplication statistics.
pub struct DedupAnalyzer;

impl DedupAnalyzer {
    /// Statistics of redundant partitions across tables: two partitions
    /// are the same data when checksum and row count agree. Each distinct
    /// content key counts once as unique; the other partitions with that key
    /// are duplicates and their rows are duplicate rows. The pairs of
    /// tables that share the most partitions come first, at most ten.
    pub fn compute_stats(per_table: &Vec<(String, Vec<PartitionInfo>)>) -> (s: DedupStats)
        requires
            sum_rows(flat_parts(per_table@)) <= u64::MAX,
        ensures
            ({
                let fl = flat_parts(per_table@);
                let dk = distinct(part_keys(fl));
                let r = pair_views(s.top_dedup_pairs@);
                &&& s.total_partitions == fl.len()
                &&& s.unique_partitions == dk.len()
                &&& s.duplicate_partitions == fl.len() - dk.len()
                &&& s.total_rows == sum_rows(fl)
                &&& s.duplicate_rows == sum_rows(fl) - sum_key_rows(dk)
                &&& r.len() <= 10
                &&& forall|k: int| 0 <= k < r.len() ==>
                    is_candidate(fl, (#[trigger] r[k]).0, r[k].1) && r[k] == candidate_view(fl, r[k].0, r[k].1)
                &&& forall|k1: int, k2: int| 0 <= k1 < k2 < r.len() ==>
                    (r[k1].0, r[k1].1) != (r[k2].0, r[k2].1) && r[k1].2 >= r[k2].2
                &&& forall|a: Seq<char>, b: Seq<char>| is_candidate(fl, a, b)
                    && !(exists|k: int| 0 <= k < r.len() && r[k].0 == a && r[k].1 == b)
                    ==> r.len() == 10 && pair_count(fl, a, b, dk) <= r[9].2
            }),
    {
        let (flat, total_rows) = flatten(per_table);
        let ghost fl = flat_parts(per_table@);
        let (keys, key_rows) = distinct_keys(&flat, Ghost(total_rows as int));
        let ghost dk = keys@;
        proof {
            lemma_sum_key_rows_le(fl);
        }
        let mut all_names: Vec<String> = Vec::new();
        let mut i: usize = 0;
        while i < per_table.len()
            invariant
                i <= per_table@.len(),
                views(all_names@) == table_names(per_table@.take(i as int)),
            decreases per_table@.len() - i,
        {
            let ghost before = all_names@;
            all_names.push(per_table[i].0.clone());
            assert(views(all_names@) =~= views(before).push(per_table@[i as int].0@));
            assert(table_names(per_table@.take(i as int + 1)) =~= table_names(per_table@.take(i as int)).push(per_table@[i as int].0@));
            i = i + 1;
        }
        assert(per_table@.take(per_table@.len() as int) =~= per_table@);
        let names = distinct_strings(&all_names);
        let ghost nm = views(names@);
        proof {
            lemma_distinct(views(all_names@));
        }
        let c = candidate_pairs(&flat, &names, &keys);
        let sel = select_top(&c, 10);
        let mut top: Vec<DedupPairStat> = Vec::new();
        let mut t: usize = 0;
        while t < sel.len()
            invariant
                t <= sel@.len(),
                top@.len() == t,
                forall|q: int| 0 <= q < sel@.len() ==> (#[trigger] sel@[q]) < c@.len(),
                forall|p: int| 0 <= p < c@.len() ==> candidate_entry(fl, nm, dk, #[trigger] c@[p]),
                nm == views(names@),
                forall|q: int| 0 <= q < t ==> pair_view(#[trigger] top@[q]) == (
                    nm[c@[sel@[q] as int].0 as int], nm[c@[sel@[q] as int].1 as int],
                    c@[sel@[q] as int].2 as nat, c@[sel@[q] as int].3 as int),
            decreases sel@.len() - t,
        {
            let e = c[sel[t]];
            assert(candidate_entry(fl, nm, dk, c@[sel@[t as int] as int]));
            let ghost before = top@;
            top.push(DedupPairStat {
                table_a: names[e.0].clone(),
                table_b: names[e.1].clone(),
                shared_partitions: e.2,
                shared_rows: e.3,
            });
            assert forall|q: int| 0 <= q < t + 1 implies pair_view(#[trigger] top@[q]) == (
                nm[c@[sel@[q] as int].0 as int], nm[c@[sel@[q] as int].1 as int],
                c@[sel@[q] as int].2 as nat, c@[sel@[q] as int].3 as int) by {
                if q < t {
                    assert(top@[q] == before[q]);
                }
            }
            t = t + 1;
        }
        let ghost r = pair_views(top@);
        proof {
            assert forall|k: int| 0 <= k < r.len() implies
                is_candidate(fl, (#[trigger] r[k]).0, r[k].1) && r[k] == candidate_view(fl, r[k].0, r[k].1) by {
                assert(r[k] == pair_view(top@[k]));
                assert(candidate_entry(fl, nm, dk, c@[sel@[k] as int]));
            }
            assert forall|k1: int, k2: int| 0 <= k1 < k2 < r.len() implies
                (r[k1].0, r[k1].1) != (r[k2].0, r[k2].1) && r[k1].2 >= r[k2].2 by {
                assert(r[k1] == pair_view(top@[k1]));
                assert(r[k2] == pair_view(top@[k2]));
                let e1 = c@[sel@[k1] as int];
                let e2 = c@[sel@[k2] as int];
                assert(candidate_entry(fl, nm, dk, e1));
                assert(candidate_entry(fl, nm, dk, e2));
                if nm[e1.0 as int] == nm[e2.0 as int] && nm[e1.1 as int] == nm[e2.1 as int] {
                    assert(names@[e1.0 as int]@ == nm[e1.0 as int]);
                    assert(e1.0 == e2.0);
                    assert(e1.1 == e2.1);
                    if sel@[k1] < sel@[k2] {
                        assert(index_pair_lt((e1.0 as int, e1.1 as int), (e2.0 as int, e2.1 as int)));
                    } else {
                        assert(index_pair_lt((e2.0 as int, e2.1 as int), (e1.0 as int, e1.1 as int)));
                    }
                }
            }
            assert forall|a: Seq<char>, b: Seq<char>| is_candidate(fl, a, b)
                && !(exists|k: int| 0 <= k < r.len() && r[k].0 == a && r[k].1 == b)
                implies r.len() == 10 && pair_count(fl, a, b, dk) <= r[9].2 by {
                // both tables hold a shared key, so both are input tables
                lemma_pair_count_holds(fl, a, b, dk);
                let key = choose|key: (u64, u64)| holds(fl, a, key) && holds(fl, b, key);
                lemma_flat_parts_tables(per_table@, (a, key.0, key.1));
                lemma_flat_parts_tables(per_table@, (b, key.0, key.1));
                assert(views(all_names@) =~= table_names(per_table@));
                assert(nm.contains(a));
                assert(nm.contains(b));
                let x = choose|x: int| 0 <= x < nm.len() && nm[x] == a;
                let y = choose|y: int| 0 <= y < nm.len() && nm[y] == b;
                let p = choose|p: int| 0 <= p < c@.len() && c@[p].0 == x && c@[p].1 == y;
                if sel@.contains(p as usize) {
                    let k = choose|k: int| 0 <= k < sel@.len() && sel@[k] == p as usize;
                    assert(r[k] == pair_view(top@[k]));
                    assert(false);
                }
                assert(c@[p].2 <= c@[sel@[sel@.len() - 1] as int].2);
                assert(r[9] == pair_view(top@[9]));
            }
        }
        DedupStats {
            total_partitions: flat.len(),
            unique_partitions: keys.len(),
            duplicate_partitions: flat.len() - keys.len(),
            total_rows,
            duplicate_rows: total_rows - key_rows,
            top_dedup_pairs: top,
        }
    }
}

/// A positive shared count comes from a key both tables hold.
proof fn lemma_pair_count_holds(fl: Seq<PartView>, a: Seq<char>, b: Seq<char>, ks: Seq<(u64, u64)>)
    requires
        pair_count(fl, a, b, ks) > 0,
    ensures
        exists|key: (u64, u64)| holds(fl, a, key) && holds(fl, b, key),
    decreases ks.len(),
{
    if !(holds(fl, a, ks.last()) && holds(fl, b, ks.last())) {
        lemma_pair_count_holds(fl, a, b, ks.drop_last());
    }
}

} // verus!
