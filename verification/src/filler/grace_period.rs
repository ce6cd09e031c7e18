//! # Graceful Column Deletion
//!
//! Tracks columns that have been removed from the source SQL but should
//! persist in the warehouse for a grace period (NULL-filled).

use vstd::prelude::*;
use crate::text::{views, to_lowercase, str_to_lowercase, last_index_of_str, index_of_str, to_owned_string};
use crate::seqs::{last_index_of, lemma_last_index_of};

verus! {

/// A UTC instant: whole seconds since the Unix epoch and the nanoseconds
/// within that second.
#[derive(Debug, Clone, Copy, PartialEq, Eq, Structural)]
pub struct UtcTime {
    pub secs: i64,
    pub nanos: u32,
}

/// Seconds of the earliest representable UTC instant (year -262143).
pub const MIN_UTC_SECS: i64 = -8_334_601_228_800;
/// Seconds of the last representable UTC second (year 262142).
pub const MAX_UTC_SECS: i64 = 8_210_266_876_799;
pub const SECS_PER_DAY: i64 = 86_400;

/// `t` is a representable instant.
pub open spec fn utc_valid(t: UtcTime) -> bool {
    MIN_UTC_SECS <= t.secs <= MAX_UTC_SECS && t.nanos < 2_000_000_000
}

/// `a` is not later than `b`.
pub open spec fn time_le(a: UtcTime, b: UtcTime) -> bool {
    a.secs < b.secs || (a.secs == b.secs && a.nanos <= b.nanos)
}

/// Adding `days` whole days to `t` stays representable.
pub open spec fn add_days_ok(t: UtcTime, days: i64) -> bool {
    MIN_UTC_SECS <= t.secs + days * SECS_PER_DAY <= MAX_UTC_SECS
}

/// `t` moved by `days` whole days.
pub open spec fn add_days(t: UtcTime, days: i64) -> UtcTime {
    UtcTime { secs: (t.secs + days * SECS_PER_DAY) as i64, nanos: t.nanos }
}

#[derive(Debug)]
pub struct GracePeriodRecord {
    pub model_name: String,
    pub column_name: String,
    pub data_type: String,
    pub first_seen_dropped_at: UtcTime,
    pub expires_at: UtcTime,
}

/// A record as (model, column, data type, first seen dropped, expiry).
pub type RecordView = (Seq<char>, Seq<char>, Seq<char>, UtcTime, UtcTime);

impl View for GracePeriodRecord {
    type V = RecordView;

    open spec fn view(&self) -> RecordView {
        (self.model_name@, self.column_name@, self.data_type@, self.first_seen_dropped_at, self.expires_at)
    }
}

impl Clone for GracePeriodRecord {
    fn clone(&self) -> (r: Self)
        ensures
            r@ == self@,
    {
        GracePeriodRecord {
            model_name: self.model_name.clone(),
            column_name: self.column_name.clone(),
            data_type: self.data_type.clone(),
            first_seen_dropped_at: self.first_seen_dropped_at,
            expires_at: self.expires_at,
        }
    }
}

pub open spec fn record_views(s: Seq<GracePeriodRecord>) -> Seq<RecordView> {
    s.map_values(|r: GracePeriodRecord| r@)
}

/// The lower-cased column names of the records.
pub open spec fn lowered_columns(ex: Seq<RecordView>) -> Seq<Seq<char>> {
    ex.map_values(|r: RecordView| str_to_lowercase(r.1))
}

/// The lower-cased names.
pub open spec fn lowered(names: Seq<Seq<char>>) -> Seq<Seq<char>> {
    names.map_values(|n: Seq<char>| str_to_lowercase(n))
}

pub open spec fn unknown_type() -> Seq<char> {
    seq!['U', 'N', 'K', 'N', 'O', 'W', 'N']
}

/// Sorts the dropped columns into (new records, records still in grace,
/// expired columns). A column matches the last record whose column name is
/// the same ignoring case. A matched record whose expiry is not after `now`
/// has expired; otherwise it is still in grace. An unmatched column starts
/// a new record, seen at `now` and expiring at `expires`.
pub open spec fn classify(model: Seq<char>, dropped: Seq<Seq<char>>, ex: Seq<RecordView>,
    now: UtcTime, expires: UtcTime) -> (Seq<RecordView>, Seq<RecordView>, Seq<Seq<char>>)
    decreases dropped.len(),
{
    if dropped.len() == 0 {
        (Seq::empty(), Seq::empty(), Seq::empty())
    } else {
        let prev = classify(model, dropped.drop_last(), ex, now, expires);
        let c = dropped.last();
        let key = str_to_lowercase(c);
        let lex = lowered_columns(ex);
        if lex.contains(key) {
            let r = ex[last_index_of(lex, key)];
            if time_le(r.4, now) {
                (prev.0, prev.1, prev.2.push(c))
            } else {
                (prev.0, prev.1.push(r), prev.2)
            }
        } else {
            (prev.0.push((model, c, unknown_type(), now, expires)), prev.1, prev.2)
        }
    }
}

/// Some dropped column has no record yet.
pub open spec fn has_new_drop(dropped: Seq<Seq<char>>, ex: Seq<RecordView>) -> bool {
    exists|i: int| 0 <= i < dropped.len() && !lowered_columns(ex).contains(#[trigger] str_to_lowercase(dropped[i]))
}

/// The column names of the records that match no dropped column, ignoring
/// case: columns that have come back.
pub open spec fn reappeared(dropped: Seq<Seq<char>>, ex: Seq<RecordView>) -> Seq<Seq<char>>
    decreases ex.len(),
{
    if ex.len() == 0 {
        Seq::empty()
    } else {
        let prev = reappeared(dropped, ex.drop_last());
        if lowered(dropped).contains(str_to_lowercase(ex.last().1)) {
            prev
        } else {
            prev.push(ex.last().1)
        }
    }
}

pub struct GracePeriodResult {
    pub new_records: Vec<GracePeriodRecord>,
    pub still_in_grace: Vec<GracePeriodRecord>,
    pub expired: Vec<String>,
    pub reappeared: Vec<String>,
}

pub struct GracePeriodManager;

fn lower_all(names: &Vec<String>) -> (r: Vec<String>)
    ensures
        views(r@) == lowered(views(names@)),
{
    let mut r: Vec<String> = Vec::new();
    let mut i: usize = 0;
    while i < names.len()
        invariant
            i <= names.len(),
            views(r@) == lowered(views(names@).take(i as int)),
        decreases names.len() - i,
    {
        let ghost before = r@;
        r.push(to_lowercase(names[i].as_str()));
        assert(views(r@) =~= views(before).push(str_to_lowercase(names@[i as int]@)));
        assert(lowered(views(names@).take(i as int + 1)) =~= lowered(views(names@).take(i as int)).push(str_to_lowercase(names@[i as int]@)));
        i = i + 1;
    }
    assert(views(names@).take(names.len() as int) =~= views(names@));
    r
}

impl GracePeriodManager {
    /// Splits the columns dropped from a model into new grace records,
    /// records still in grace and expired columns, and lists the recorded
    /// columns that are no longer dropped.
    pub fn compute_drops(
        model_name: &str,
        dropped_columns: &Vec<String>,
        existing_records: &Vec<GracePeriodRecord>,
        grace_period_days: i64,
        now: UtcTime,
    ) -> (r: GracePeriodResult)
        requires
            utc_valid(now),
            has_new_drop(views(dropped_columns@), record_views(existing_records@))
                ==> add_days_ok(now, grace_period_days),
        ensures
            ({
                let c = classify(model_name@, views(dropped_columns@), record_views(existing_records@),
                    now, add_days(now, grace_period_days));
                &&& record_views(r.new_records@) == c.0
                &&& record_views(r.still_in_grace@) == c.1
                &&& views(r.expired@) == c.2
            }),
            views(r.reappeared@) == reappeared(views(dropped_columns@), record_views(existing_records@)),
    {
        let ghost dv = views(dropped_columns@);
        let ghost ex = record_views(existing_records@);
        let ghost expires = add_days(now, grace_period_days);
        let mut names: Vec<String> = Vec::new();
        let mut k: usize = 0;
        while k < existing_records.len()
            invariant
                ex == record_views(existing_records@),
                k <= existing_records.len(),
                views(names@) == ex.take(k as int).map_values(|r: RecordView| r.1),
            decreases existing_records.len() - k,
        {
            let ghost before = names@;
            names.push(existing_records[k].column_name.clone());
            assert(views(names@) =~= views(before).push(ex[k as int].1));
            assert(ex.take(k as int + 1).map_values(|r: RecordView| r.1) =~= ex.take(k as int).map_values(|r: RecordView| r.1).push(ex[k as int].1));
            k = k + 1;
        }
        assert(ex.take(existing_records.len() as int) =~= ex);
        let lower_existing = lower_all(&names);
        assert(views(lower_existing@) =~= lowered_columns(ex));
        let lower_dropped = lower_all(dropped_columns);
        assert(views(lower_dropped@).len() == lower_dropped@.len());
        assert(views(lower_existing@).len() == lower_existing@.len());

        let mut new_records: Vec<GracePeriodRecord> = Vec::new();
        let mut still_in_grace: Vec<GracePeriodRecord> = Vec::new();
        let mut expired: Vec<String> = Vec::new();
        let mut i: usize = 0;
        while i < dropped_columns.len()
            invariant
                dv == views(dropped_columns@),
                ex == record_views(existing_records@),
                expires == add_days(now, grace_period_days),
                views(lower_existing@) == lowered_columns(ex),
                views(lower_dropped@) == lowered(dv),
                lower_dropped@.len() == dv.len(),
                lower_existing@.len() == ex.len(),
                utc_valid(now),
                has_new_drop(dv, ex) ==> add_days_ok(now, grace_period_days),
                i <= dropped_columns.len(),
                ({
                    let c = classify(model_name@, dv.take(i as int), ex, now, expires);
                    &&& record_views(new_records@) == c.0
                    &&& record_views(still_in_grace@) == c.1
                    &&& views(expired@) == c.2
                }),
            decreases dropped_columns.len() - i,
        {
            let ghost prefix = dv.take(i as int + 1);
            assert(prefix.drop_last() =~= dv.take(i as int));
            assert(prefix.last() == dropped_columns@[i as int]@);
            assert(views(lower_dropped@)[i as int] == lower_dropped@[i as int]@);
            assert(lower_dropped@[i as int]@ == str_to_lowercase(dv[i as int]));
            let found = last_index_of_str(&lower_existing, lower_dropped[i].as_str());
            proof {
                lemma_last_index_of(lowered_columns(ex), str_to_lowercase(dv[i as int]));
            }
            match found {
                Some(j) => {
                    let rec = &existing_records[j];
                    assert(rec@ == ex[j as int]);
                    if rec.expires_at.secs < now.secs
                        || (rec.expires_at.secs == now.secs && rec.expires_at.nanos <= now.nanos) {
                        let ghost before = expired@;
                        expired.push(dropped_columns[i].clone());
                        assert(views(expired@) =~= views(before).push(dv[i as int]));
                    } else {
                        let ghost before = still_in_grace@;
                        still_in_grace.push(rec.clone());
                        assert(record_views(still_in_grace@) =~= record_views(before).push(ex[j as int]));
                    }
                }
                None => {
                    proof {
                        assert(has_new_drop(dv, ex));
                    }
                    let expires_at = UtcTime { secs: now.secs + grace_period_days * SECS_PER_DAY, nanos: now.nanos };
                    let ghost before = new_records@;
                    new_records.push(GracePeriodRecord {
                        model_name: to_owned_string(model_name),
                        column_name: dropped_columns[i].clone(),
                        data_type: to_owned_string("UNKNOWN"),
                        first_seen_dropped_at: now,
                        expires_at,
                    });
                    proof {
                        reveal_strlit("UNKNOWN");
                        assert("UNKNOWN"@ =~= unknown_type());
                    }
                    assert(record_views(new_records@) =~= record_views(before).push(
                        (model_name@, dv[i as int], unknown_type(), now, expires)));
                }
            }
            i = i + 1;
        }
        assert(dv.take(dropped_columns.len() as int) =~= dv);

        let mut back: Vec<String> = Vec::new();
        let mut m: usize = 0;
        while m < existing_records.len()
            invariant
                dv == views(dropped_columns@),
                ex == record_views(existing_records@),
                views(lower_existing@) == lowered_columns(ex),
                views(lower_dropped@) == lowered(dv),
                lower_existing@.len() == ex.len(),
                m <= existing_records.len(),
                views(back@) == reappeared(dv, ex.take(m as int)),
            decreases existing_records.len() - m,
        {
            let ghost prefix = ex.take(m as int + 1);
            assert(prefix.drop_last() =~= ex.take(m as int));
            assert(views(lower_existing@)[m as int] == lower_existing@[m as int]@);
            assert(lower_existing@[m as int]@ == str_to_lowercase(ex[m as int].1));
            let hit = last_index_of_str(&lower_dropped, lower_existing[m].as_str());
            proof {
                lemma_last_index_of(lowered(dv), str_to_lowercase(ex[m as int].1));
            }
            if hit.is_none() {
                let ghost before = back@;
                back.push(existing_records[m].column_name.clone());
                assert(views(back@) =~= views(before).push(ex[m as int].1));
            }
            m = m + 1;
        }
        assert(ex.take(existing_records.len() as int) =~= ex);
        GracePeriodResult { new_records, still_in_grace, expired, reappeared: back }
    }

    /// `compute_drops`, or `None` where a new grace period would have to
    /// end at an instant that cannot be represented.
    pub fn compute_drops_checked(
        model_name: &str,
        dropped_columns: &Vec<String>,
        existing_records: &Vec<GracePeriodRecord>,
        grace_period_days: i64,
        now: UtcTime,
    ) -> (r: Option<GracePeriodResult>)
        requires
            utc_valid(now),
        ensures
            r is None <==> (has_new_drop(views(dropped_columns@), record_views(existing_records@))
                && !add_days_ok(now, grace_period_days)),
            r matches Some(res) ==> ({
                let c = classify(model_name@, views(dropped_columns@), record_views(existing_records@),
                    now, add_days(now, grace_period_days));
                &&& record_views(res.new_records@) == c.0
                &&& record_views(res.still_in_grace@) == c.1
                &&& views(res.expired@) == c.2
                &&& views(res.reappeared@) == reappeared(views(dropped_columns@), record_views(existing_records@))
            }),
    {
        if any_new_drop(dropped_columns, existing_records) {
            let end: i128 = now.secs as i128 + (grace_period_days as i128) * 86_400i128;
            if end < MIN_UTC_SECS as i128 || end > MAX_UTC_SECS as i128 {
                return None;
            }
        }
        Some(Self::compute_drops(model_name, dropped_columns, existing_records, grace_period_days, now))
    }
}

/// Whether some dropped column has no record yet, ignoring case.
fn any_new_drop(dropped: &Vec<String>, existing: &Vec<GracePeriodRecord>) -> (b: bool)
    ensures
        b == has_new_drop(views(dropped@), record_views(existing@)),
{
    let ghost ex = record_views(existing@);
    let mut known: Vec<String> = Vec::new();
    let mut k: usize = 0;
    while k < existing.len()
        invariant
            ex == record_views(existing@),
            k <= existing.len(),
            views(known@) == lowered_columns(ex.take(k as int)),
        decreases existing.len() - k,
    {
        let ghost before = known@;
        known.push(to_lowercase(existing[k].column_name.as_str()));
        assert(views(known@) =~= views(before).push(str_to_lowercase(ex[k as int].1)));
        assert(lowered_columns(ex.take(k as int + 1))
            =~= lowered_columns(ex.take(k as int)).push(str_to_lowercase(ex[k as int].1)));
        k = k + 1;
    }
    assert(ex.take(existing.len() as int) =~= ex);
    let ghost dv = views(dropped@);
    let ghost lex = lowered_columns(ex);
    let mut i: usize = 0;
    while i < dropped.len()
        invariant
            i <= dropped.len(),
            dv == views(dropped@),
            ex == record_views(existing@),
            views(known@) == lex,
            lex == lowered_columns(ex),
            forall|j: int| 0 <= j < i ==> lex.contains(#[trigger] str_to_lowercase(dv[j])),
        decreases dropped.len() - i,
    {
        let key = to_lowercase(dropped[i].as_str());
        assert(key@ == str_to_lowercase(dv[i as int]));
        match index_of_str(&known, key.as_str()) {
            None => {
                assert(!lex.contains(key@)) by {
                    if lex.contains(key@) {
                        let w = choose|w: int| 0 <= w < lex.len() && lex[w] == key@;
                        assert(known@[w]@ == lex[w]);
                    }
                }
                assert(!lowered_columns(ex).contains(#[trigger] str_to_lowercase(dv[i as int])));
                return true;
            }
            Some(j) => {
                assert(lex[j as int] == known@[j as int]@);
                assert(lex.contains(str_to_lowercase(dv[i as int])));
            }
        }
        i = i + 1;
    }
    false
}


/// Every dropped column is accounted for exactly once: it starts a new
/// record, keeps a record still in grace, or has expired.
pub proof fn lemma_drops_partition(model: Seq<char>, dropped: Seq<Seq<char>>, ex: Seq<RecordView>,
    now: UtcTime, expires: UtcTime)
    ensures
        ({
            let c = classify(model, dropped, ex, now, expires);
            c.0.len() + c.1.len() + c.2.len() == dropped.len()
        }),
    decreases dropped.len(),
{
    if dropped.len() > 0 {
        lemma_drops_partition(model, dropped.drop_last(), ex, now, expires);
    }
}


impl GracePeriodResult {
    /// The records to store for the next run: those still in grace, then
    /// the new ones.
    pub fn records_to_keep(self) -> (r: Vec<GracePeriodRecord>)
        ensures
            record_views(r@) == record_views(self.still_in_grace@) + record_views(self.new_records@),
    {
        let mut keep = self.still_in_grace;
        let mut extra = self.new_records;
        let ghost a = record_views(keep@);
        let ghost b = record_views(extra@);
        keep.append(&mut extra);
        assert(record_views(keep@) =~= a + b);
        keep
    }
}

} // verus!
