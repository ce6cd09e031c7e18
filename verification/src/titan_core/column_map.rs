//! Column mapping and schema widening.

use vstd::prelude::*;
use crate::text::{views, index_of_str};
use crate::titan_core::dialect::{DataType, Field, FieldView, field_views};

verus! {

#[derive(Debug)]
pub struct ColumnMapping {
    pub physical_name: String,
    pub data_type: DataType,
}

/// Map of logical column names to physical names and types.
#[derive(Debug)]
pub struct ColumnMap {
    logical_names: Vec<String>,
    mappings: Vec<ColumnMapping>,
}

/// The type a column is written with: a widening of the source type to the
/// mapped type where one applies, the source type otherwise.
pub open spec fn spec_widened_type(source: DataType, target: DataType) -> DataType {
    match (source, target) {
        (DataType::Int32, DataType::Int64) => DataType::Int64,
        (DataType::Float32, DataType::Float64) => DataType::Float64,
        (DataType::Utf8, DataType::LargeUtf8) => DataType::LargeUtf8,
        _ => source,
    }
}

/// The field a mapping turns `f` into (unchanged without a mapping).
pub open spec fn spec_reconciled(m: Map<Seq<char>, (Seq<char>, DataType)>, f: FieldView) -> FieldView {
    if m.contains_key(f.name) {
        FieldView { name: m[f.name].0, data_type: spec_widened_type(f.data_type, m[f.name].1), nullable: f.nullable }
    } else {
        f
    }
}

/// The map that a list of (name, value) entries denotes, later entries
/// taking precedence.
pub open spec fn entries_map(names: Seq<Seq<char>>, vals: Seq<(Seq<char>, DataType)>) -> Map<Seq<char>, (Seq<char>, DataType)>
    decreases names.len(),
{
    if names.len() == 0 || vals.len() == 0 {
        Map::empty()
    } else {
        entries_map(names.drop_last(), vals.drop_last()).insert(names.last(), vals.last())
    }
}

pub open spec fn mapping_views(ms: Seq<ColumnMapping>) -> Seq<(Seq<char>, DataType)> {
    ms.map_values(|m: ColumnMapping| (m.physical_name@, m.data_type))
}

proof fn lemma_entries_map(names: Seq<Seq<char>>, vals: Seq<(Seq<char>, DataType)>)
    requires
        names.len() == vals.len(),
        names.no_duplicates(),
    ensures
        forall|k: Seq<char>| entries_map(names, vals).contains_key(k) <==> names.contains(k),
        forall|i: int| 0 <= i < names.len() ==> entries_map(names, vals)[#[trigger] names[i]] == vals[i],
    decreases names.len(),
{
    if names.len() > 0 {
        let n0 = names.drop_last();
        let v0 = vals.drop_last();
        assert(n0.no_duplicates()) by {
            assert forall|a: int, b: int| 0 <= a < n0.len() && 0 <= b < n0.len() && a != b implies n0[a] != n0[b] by {
                assert(n0[a] == names[a] && n0[b] == names[b]);
            }
        }
        lemma_entries_map(n0, v0);
        assert forall|k: Seq<char>| entries_map(names, vals).contains_key(k) <==> names.contains(k) by {
            crate::seqs::lemma_seq_drop_last_contains(names, k);
        }
        assert forall|i: int| 0 <= i < names.len() implies entries_map(names, vals)[#[trigger] names[i]] == vals[i] by {
            if i < names.len() - 1 {
                assert(n0[i] == names[i]);
                assert(names[i] != names.last());
            }
        }
    }
}

proof fn lemma_entries_map_update(names: Seq<Seq<char>>, vals: Seq<(Seq<char>, DataType)>, i: int, v: (Seq<char>, DataType))
    requires
        names.len() == vals.len(),
        names.no_duplicates(),
        0 <= i < names.len(),
    ensures
        entries_map(names, vals.update(i, v)) == entries_map(names, vals).insert(names[i], v),
{
    lemma_entries_map(names, vals);
    lemma_entries_map(names, vals.update(i, v));
    let m1 = entries_map(names, vals.update(i, v));
    let m2 = entries_map(names, vals).insert(names[i], v);
    let vu = vals.update(i, v);
    assert(vu.len() == names.len());
    assert(names.contains(names[i])) by {
        assert(0 <= i < names.len() && names[i] == names[i]);
    }
    assert forall|k: Seq<char>| m1.contains_key(k) <==> m2.contains_key(k) by {
        assert(m1.contains_key(k) <==> names.contains(k));
        assert(entries_map(names, vals).contains_key(k) <==> names.contains(k));
    }
    assert forall|k: Seq<char>| m1.contains_key(k) implies m1[k] == m2[k] by {
        assert(names.contains(k));
        let j = choose|j: int| 0 <= j < names.len() && names[j] == k;
        assert(m1[names[j]] == vu[j]);
        if j != i {
            assert(names[j] != names[i]);
        }
    }
    assert(m1 =~= m2);
}

impl ColumnMap {
    pub closed spec fn wf(&self) -> bool {
        &&& self.logical_names@.len() == self.mappings@.len()
        &&& views(self.logical_names@).no_duplicates()
    }

    /// The mappings, by logical name.
    pub closed spec fn view(&self) -> Map<Seq<char>, (Seq<char>, DataType)> {
        entries_map(views(self.logical_names@), mapping_views(self.mappings@))
    }

    proof fn lemma_view_at(&self, i: int)
        requires
            self.wf(),
            0 <= i < self.logical_names@.len(),
        ensures
            self.view().contains_key(self.logical_names@[i]@),
            self.view()[self.logical_names@[i]@] == (self.mappings@[i].physical_name@, self.mappings@[i].data_type),
    {
        lemma_entries_map(views(self.logical_names@), mapping_views(self.mappings@));
        assert(views(self.logical_names@)[i] == self.logical_names@[i]@);
        assert(views(self.logical_names@).contains(self.logical_names@[i]@));
    }

    proof fn lemma_view_keys(&self)
        requires
            self.wf(),
        ensures
            forall|k: Seq<char>| self.view().contains_key(k) <==> views(self.logical_names@).contains(k),
    {
        lemma_entries_map(views(self.logical_names@), mapping_views(self.mappings@));
    }

    pub fn new() -> (m: Self)
        ensures
            m.wf(),
            m.view() == Map::<Seq<char>, (Seq<char>, DataType)>::empty(),
    {
        let m = ColumnMap { logical_names: Vec::new(), mappings: Vec::new() };
        assert(views(m.logical_names@).len() == 0);
        m
    }

    /// Maps `logical_name` to `physical_name` with `data_type` (replacing
    /// any earlier mapping of that name).
    pub fn insert(&mut self, logical_name: String, physical_name: String, data_type: DataType)
        requires
            old(self).wf(),
        ensures
            final(self).wf(),
            final(self).view() == old(self).view().insert(logical_name@, (physical_name@, data_type)),
    {
        let ghost pre = *self;
        let found = index_of_str(&self.logical_names, logical_name.as_str());
        match found {
            Some(i) => {
                let ghost nv = (physical_name@, data_type);
                self.mappings.set(i, ColumnMapping { physical_name, data_type });
                assert(mapping_views(self.mappings@) =~= mapping_views(pre.mappings@).update(i as int, nv));
                assert(views(pre.logical_names@)[i as int] == logical_name@);
                proof {
                    lemma_entries_map_update(views(pre.logical_names@), mapping_views(pre.mappings@), i as int, nv);
                }
            },
            None => {
                let ghost lv = logical_name@;
                self.logical_names.push(logical_name);
                self.mappings.push(ColumnMapping { physical_name, data_type });
                assert(views(self.logical_names@) =~= views(pre.logical_names@).push(lv));
                assert(mapping_views(self.mappings@) =~= mapping_views(pre.mappings@).push((physical_name@, data_type)));
                assert(views(self.logical_names@).drop_last() =~= views(pre.logical_names@));
                assert(mapping_views(self.mappings@).drop_last() =~= mapping_views(pre.mappings@));
                assert(views(self.logical_names@).no_duplicates()) by {
                    assert forall|a: int, b: int| 0 <= a < views(self.logical_names@).len() && 0 <= b < views(self.logical_names@).len() && a != b
                        implies views(self.logical_names@)[a] != views(self.logical_names@)[b] by {
                        if a == views(pre.logical_names@).len() {
                            assert(views(pre.logical_names@)[b] == views(self.logical_names@)[b]);
                        } else if b == views(pre.logical_names@).len() {
                            assert(views(pre.logical_names@)[a] == views(self.logical_names@)[a]);
                        }
                    }
                }
            },
        }
    }

    /// Reconciles an input schema with the map: each mapped field takes its
    /// physical name and, where a widening applies, the mapped type; other
    /// fields pass unchanged.
    pub fn reconcile(&self, input_schema: &Vec<Field>) -> (fields: Vec<Field>)
        requires
            self.wf(),
        ensures
            field_views(fields@) == field_views(input_schema@).map_values(|f: FieldView| spec_reconciled(self.view(), f)),
    {
        let mut fields: Vec<Field> = Vec::new();
        let mut i: usize = 0;
        while i < input_schema.len()
            invariant
                self.wf(),
                i <= input_schema.len(),
                field_views(fields@) == field_views(input_schema@).take(i as int).map_values(
                    |f: FieldView| spec_reconciled(self.view(), f)),
            decreases input_schema.len() - i,
        {
            let f = &input_schema[i];
            let found = index_of_str(&self.logical_names, f.name.as_str());
            proof { self.lemma_view_keys(); }
            let nf = match found {
                Some(j) => {
                    proof { self.lemma_view_at(j as int); }
                    let m = &self.mappings[j];
                    Field {
                        name: m.physical_name.clone(),
                        data_type: Self::widened_type(f.data_type, m.data_type),
                        nullable: f.nullable,
                    }
                },
                None => f.clone(),
            };
            assert(nf@ == spec_reconciled(self.view(), f@));
            let ghost before = field_views(fields@);
            fields.push(nf);
            assert(field_views(input_schema@).take(i as int + 1) =~= field_views(input_schema@).take(i as int).push(f@));
            assert(field_views(fields@) =~= before.push(nf@));
            i = i + 1;
        }
        assert(field_views(input_schema@).take(input_schema.len() as int) =~= field_views(input_schema@));
        fields
    }

    fn widened_type(source: DataType, target: DataType) -> (r: DataType)
        ensures
            r == spec_widened_type(source, target),
    {
        match (source, target) {
            (DataType::Int32, DataType::Int64) => DataType::Int64,
            (DataType::Float32, DataType::Float64) => DataType::Float64,
            (DataType::Utf8, DataType::LargeUtf8) => DataType::LargeUtf8,
            _ => source,
        }
    }
}

} // verus!
