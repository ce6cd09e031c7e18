//! Schema metadata for lineage analysis: the tables and columns that DDL
//! declares.

use vstd::prelude::*;
use crate::error::TitanError;
use crate::titan_core::lineage_extract::{SqlStatement, parse_statements, sql_statements};

verus! {

/// A column of a declared table: its name and data type, as the parser
/// prints them.
pub struct SchemaColumn {
    pub name: String,
    pub data_type: Option<String>,
}

/// A table that DDL declares, with its columns in order.
pub struct TableSchema {
    pub name: String,
    pub columns: Vec<SchemaColumn>,
}

/// A column as (name, data type).
pub type ColumnView = (Seq<char>, Option<Seq<char>>);

/// A table as (name, columns).
pub type TableView = (Seq<char>, Seq<ColumnView>);

impl View for SchemaColumn {
    type V = ColumnView;

    open spec fn view(&self) -> ColumnView {
        (self.name@, match self.data_type {
            Some(t) => Some(t@),
            None => None,
        })
    }
}

impl View for TableSchema {
    type V = TableView;

    open spec fn view(&self) -> TableView {
        (self.name@, self.columns@.map_values(|c: SchemaColumn| c@))
    }
}

pub open spec fn table_views(s: Seq<TableSchema>) -> Seq<TableView> {
    s.map_values(|t: TableSchema| t@)
}

/// The tables that the CREATE TABLE statements among `stmts` declare, in
/// order.
pub open spec fn created_tables(stmts: Seq<SqlStatement>) -> Seq<TableView>
    decreases stmts.len(),
{
    if stmts.len() == 0 {
        Seq::empty()
    } else {
        let prev = created_tables(stmts.drop_last());
        match stmts.last() {
            SqlStatement::CreateTable(t) => prev.push(t@),
            _ => prev,
        }
    }
}

/// Collects the table schemas that DDL declares.
pub struct Mapper {
    tables: Vec<TableSchema>,
}

impl View for Mapper {
    type V = Seq<TableView>;

    closed spec fn view(&self) -> Seq<TableView> {
        table_views(self.tables@)
    }
}

impl Mapper {
    pub fn new() -> (m: Self)
        ensures
            m@ == Seq::<TableView>::empty(),
    {
        let m = Mapper { tables: Vec::new() };
        assert(table_views(m.tables@) =~= Seq::<TableView>::empty());
        m
    }

    /// The tables loaded so far, in order.
    pub fn tables(&self) -> (r: &Vec<TableSchema>)
        ensures
            table_views(r@) == self@,
    {
        &self.tables
    }

    /// Parses DDL (PostgreSQL dialect) and adds the table of each CREATE
    /// TABLE statement, in order; other statements are skipped. DDL that
    /// does not parse is a parse error carrying the parser's message, and
    /// then nothing is added.
    pub fn load_schema(&mut self, ddl: &str) -> (r: Result<(), TitanError>)
        ensures
            match sql_statements(ddl@, true) {
                Err(m) => (r matches Err(TitanError::SqlParseError(e)) && e@ == m) && final(self)@ == old(self)@,
                Ok(stmts) => r is Ok && final(self)@ == old(self)@ + created_tables(stmts),
            },
    {
        match parse_statements(ddl, true) {
            Err(e) => Err(TitanError::SqlParseError(e)),
            Ok(stmts) => {
                let ghost start = table_views(self.tables@);
                let mut i: usize = 0;
                while i < stmts.len()
                    invariant
                        i <= stmts.len(),
                        table_views(self.tables@) == start + created_tables(stmts@.take(i as int)),
                    decreases stmts.len() - i,
                {
                    let ghost before = table_views(self.tables@);
                    assert(stmts@.take(i as int + 1).drop_last() =~= stmts@.take(i as int));
                    match &stmts[i] {
                        SqlStatement::CreateTable(t) => {
                            let copy = copy_table(t);
                            self.tables.push(copy);
                            assert(table_views(self.tables@) =~= before.push(t@));
                        },
                        _ => {},
                    }
                    i = i + 1;
                }
                assert(stmts@.take(stmts.len() as int) =~= stmts@);
                Ok(())
            },
        }
    }
}

fn copy_column(c: &SchemaColumn) -> (r: SchemaColumn)
    ensures
        r@ == c@,
{
    SchemaColumn {
        name: c.name.clone(),
        data_type: match &c.data_type {
            Some(t) => Some(t.clone()),
            None => None,
        },
    }
}

fn copy_table(t: &TableSchema) -> (r: TableSchema)
    ensures
        r@ == t@,
{
    let mut columns: Vec<SchemaColumn> = Vec::new();
    let mut i: usize = 0;
    while i < t.columns.len()
        invariant
            i <= t.columns.len(),
            columns@.map_values(|c: SchemaColumn| c@) == t.columns@.take(i as int).map_values(|c: SchemaColumn| c@),
        decreases t.columns.len() - i,
    {
        let ghost before = columns@;
        columns.push(copy_column(&t.columns[i]));
        assert(columns@.map_values(|c: SchemaColumn| c@)
            =~= before.map_values(|c: SchemaColumn| c@).push(t.columns@[i as int]@));
        assert(t.columns@.take(i as int + 1).map_values(|c: SchemaColumn| c@)
            =~= t.columns@.take(i as int).map_values(|c: SchemaColumn| c@).push(t.columns@[i as int]@));
        assert(columns@.map_values(|c: SchemaColumn| c@)
            =~= t.columns@.take(i as int + 1).map_values(|c: SchemaColumn| c@));
        i = i + 1;
    }
    assert(t.columns@.take(t.columns.len() as int) =~= t.columns@);
    TableSchema { name: t.name.clone(), columns }
}

} // verus!
