//! Extraction of column lineage from a parsed SELECT statement.
//!
//! SQL is parsed by `sqlparser`; the parts of its syntax tree that lineage
//! reads are carried over into the small tree below, which the extraction
//! walks.

use vstd::prelude::*;
use crate::error::TitanError;
use crate::text::{to_owned_string, to_lowercase, to_uppercase, str_to_lowercase, str_to_uppercase, str_eq};
use crate::titan_core::lineage::{ColumnLineage, ColumnLineageView, LineageResult, QualifiedColumn, TransformKind,
    TransformView, edge_views};
use crate::text::views;
use crate::mapper::{SchemaColumn, TableSchema};

verus! {

/// A parsed SQL statement, as `sqlparser` produces it.
#[verifier::external_type_specification]
#[verifier::external_body]
pub struct ExSqlStatement(sqlparser::ast::Statement);

/// A SELECT of `sqlparser`.
#[verifier::external_type_specification]
#[verifier::external_body]
pub struct ExSqlSelect(sqlparser::ast::Select);

/// A FROM item of `sqlparser`.
#[verifier::external_type_specification]
#[verifier::external_body]
pub struct ExSqlTableFactor(sqlparser::ast::TableFactor);

/// A projection item of `sqlparser`.
#[verifier::external_type_specification]
#[verifier::external_body]
pub struct ExSqlSelectItem(sqlparser::ast::SelectItem);

/// An expression of `sqlparser`.
#[verifier::external_type_specification]
#[verifier::external_body]
pub struct ExSqlExpr(sqlparser::ast::Expr);

/// A function call of `sqlparser`.
#[verifier::external_type_specification]
#[verifier::external_body]
pub struct ExSqlFunction(sqlparser::ast::Function);

/// A call argument of `sqlparser`.
#[verifier::external_type_specification]
#[verifier::external_body]
pub struct ExSqlFunctionArg(sqlparser::ast::FunctionArg);

/// An expression, as far as lineage reads it.
pub enum SqlExpr {
    Identifier(String),
    CompoundIdentifier(Vec<String>),
    Cast(Box<SqlExpr>),
    /// A call: the function's name and, for a plain argument list, its
    /// arguments.
    Function { name: String, args: Option<Box<ArgList>> },
    Other,
}

/// The arguments of a call, in order.
pub enum ArgList {
    Nil,
    Cons(Box<FunctionArgument>, Box<ArgList>),
}

/// The arguments of an argument list, in order.
pub open spec fn arg_items(l: ArgList) -> Seq<FunctionArgument>
    decreases l,
{
    match l {
        ArgList::Nil => Seq::empty(),
        ArgList::Cons(a, rest) => seq![*a] + arg_items(*rest),
    }
}

impl ArgList {
    /// The argument list that holds `args`, in their order: its first
    /// argument is `args[0]`, and so on.
    pub fn from_vec(args: Vec<FunctionArgument>) -> (r: ArgList)
        ensures
            arg_items(r) == args@,
    {
        let ghost all = args@;
        let mut rest = args;
        let mut acc = ArgList::Nil;
        while rest.len() > 0
            invariant
                rest@ == all.take(rest.len() as int),
                rest.len() <= all.len(),
                arg_items(acc) == all.skip(rest.len() as int),
            decreases rest.len(),
        {
            let ghost n: int = rest.len() as int;
            let a = rest.pop().unwrap();
            assert(a == all[n - 1]);
            let ghost before = arg_items(acc);
            acc = ArgList::Cons(Box::new(a), Box::new(acc));
            assert(arg_items(acc) =~= seq![all[n - 1]] + before);
            assert(all.skip(n - 1) =~= seq![all[n - 1]] + all.skip(n));
            assert(rest@ =~= all.take(n - 1));
        }
        assert(all.skip(0) =~= all);
        acc
    }
}

pub enum FunctionArgument {
    /// A positional expression argument.
    Unnamed(SqlExpr),
    Other,
}

pub enum SqlSelectItem {
    /// `*` or `t.*`.
    Wildcard,
    UnnamedExpr(SqlExpr),
    ExprWithAlias(SqlExpr, String),
    Other,
}

pub enum SqlTableFactor {
    Table { name: String, alias: Option<String> },
    Derived { alias: Option<String> },
    Other,
}

/// A SELECT: its relations (each FROM item followed by its joins) and its
/// projection.
pub struct SqlSelect {
    pub relations: Vec<SqlTableFactor>,
    pub projection: Vec<SqlSelectItem>,
}

pub enum SqlStatement {
    Select(SqlSelect),
    /// A query whose body is not a plain SELECT.
    OtherQuery,
    /// A CREATE TABLE statement: the table it declares.
    CreateTable(TableSchema),
    /// Any other statement.
    Other,
}

/// What `sqlparser` makes of SQL text, with the PostgreSQL dialect where
/// `postgres` holds and the generic dialect otherwise: the message of its
/// error, or its statements, each carried over into the tree above.
pub uninterp spec fn sql_statements(sql: Seq<char>, postgres: bool) -> Result<Seq<SqlStatement>, Seq<char>>;

/// Parses SQL text (`sqlparser::parser::Parser::parse_sql`, with the
/// PostgreSQL dialect where `postgres` holds and the generic one otherwise)
/// and carries each statement over; an error becomes its message (its
/// `Display`). The outcome is a function of the text and the dialect alone,
/// named `sql_statements`; which statements the parser finds is not stated.
#[verifier::external_body]
pub(crate) fn parse_statements(sql: &str, postgres: bool) -> (r: Result<Vec<SqlStatement>, String>)
    ensures
        match r {
            Ok(v) => sql_statements(sql@, postgres) == Ok::<Seq<SqlStatement>, Seq<char>>(v@),
            Err(m) => sql_statements(sql@, postgres) == Err::<Seq<SqlStatement>, Seq<char>>(m@),
        },
{
    let parsed = if postgres {
        sqlparser::parser::Parser::parse_sql(&sqlparser::dialect::PostgreSqlDialect {}, sql)
    } else {
        sqlparser::parser::Parser::parse_sql(&sqlparser::dialect::GenericDialect {}, sql)
    };
    match parsed {
        Ok(statements) => Ok(statements.iter().map(statement_tree).collect()),
        Err(e) => Err(e.to_string()),
    }
}

/// Carries a parsed statement over into the lineage tree. Nothing is
/// stated of the result: the statement is opaque here.
#[verifier::external_body]
fn statement_tree(s: &sqlparser::ast::Statement) -> (r: SqlStatement) {
    match s {
        sqlparser::ast::Statement::Query(q) => match q.body.as_ref() {
            sqlparser::ast::SetExpr::Select(sel) => SqlStatement::Select(select_tree(sel)),
            _ => SqlStatement::OtherQuery,
        },
        sqlparser::ast::Statement::CreateTable(ct) => SqlStatement::CreateTable(TableSchema {
            name: ct.name.to_string(),
            columns: ct.columns.iter()
                .map(|c| SchemaColumn { name: c.name.to_string(), data_type: Some(c.data_type.to_string()) })
                .collect(),
        }),
        _ => SqlStatement::Other,
    }
}

/// Carries a SELECT over: each FROM item followed by its joins, and the
/// projection. Nothing is stated of the result.
#[verifier::external_body]
fn select_tree(sel: &sqlparser::ast::Select) -> (r: SqlSelect) {
    SqlSelect {
        relations: sel.from.iter()
            .flat_map(|t| std::iter::once(&t.relation).chain(t.joins.iter().map(|j| &j.relation)))
            .map(|f| table_factor_tree(f))
            .collect(),
        projection: sel.projection.iter().map(|i| select_item_tree(i)).collect(),
    }
}

/// Carries a FROM item over (its name as `sqlparser` prints it, and its
/// alias). Nothing is stated of the result.
#[verifier::external_body]
fn table_factor_tree(f: &sqlparser::ast::TableFactor) -> (r: SqlTableFactor) {
    match f {
        sqlparser::ast::TableFactor::Table { name, alias, .. } =>
            SqlTableFactor::Table { name: name.to_string(), alias: alias.as_ref().map(|a| a.name.value.clone()) },
        sqlparser::ast::TableFactor::Derived { alias, .. } =>
            SqlTableFactor::Derived { alias: alias.as_ref().map(|a| a.name.value.clone()) },
        _ => SqlTableFactor::Other,
    }
}

/// Carries a projection item over. Nothing is stated of the result.
#[verifier::external_body]
fn select_item_tree(i: &sqlparser::ast::SelectItem) -> (r: SqlSelectItem) {
    match i {
        sqlparser::ast::SelectItem::Wildcard(_) => SqlSelectItem::Wildcard,
        sqlparser::ast::SelectItem::QualifiedWildcard(_, _) => SqlSelectItem::Wildcard,
        sqlparser::ast::SelectItem::UnnamedExpr(e) => SqlSelectItem::UnnamedExpr(expr_tree(e)),
        sqlparser::ast::SelectItem::ExprWithAlias { expr, alias } =>
            SqlSelectItem::ExprWithAlias(expr_tree(expr), alias.value.clone()),
        _ => SqlSelectItem::Other,
    }
}

/// Carries an expression over. Nothing is stated of the result.
#[verifier::external_body]
fn expr_tree(e: &sqlparser::ast::Expr) -> (r: SqlExpr) {
    match e {
        sqlparser::ast::Expr::Identifier(i) => SqlExpr::Identifier(i.value.clone()),
        sqlparser::ast::Expr::CompoundIdentifier(p) =>
            SqlExpr::CompoundIdentifier(p.iter().map(|i| i.value.clone()).collect()),
        sqlparser::ast::Expr::Cast { expr, .. } => SqlExpr::Cast(Box::new(expr_tree(expr))),
        sqlparser::ast::Expr::Function(f) => function_tree(f),
        _ => SqlExpr::Other,
    }
}

/// Carries a call over: its name as `sqlparser` prints it and, for a plain
/// argument list, its arguments in their order (each carried over, then
/// chained by `ArgList::from_vec`). Nothing is stated of the result.
#[verifier::external_body]
fn function_tree(f: &sqlparser::ast::Function) -> (r: SqlExpr) {
    let args = match &f.args {
        sqlparser::ast::FunctionArguments::List(l) =>
            Some(Box::new(ArgList::from_vec(l.args.iter().map(argument_tree).collect()))),
        _ => None,
    };
    SqlExpr::Function { name: f.name.to_string(), args }
}

/// Carries a call argument over. Nothing is stated of the result.
#[verifier::external_body]
fn argument_tree(a: &sqlparser::ast::FunctionArg) -> (r: FunctionArgument) {
    match a {
        sqlparser::ast::FunctionArg::Unnamed(sqlparser::ast::FunctionArgExpr::Expr(e)) =>
            FunctionArgument::Unnamed(expr_tree(e)),
        _ => FunctionArgument::Other,
    }
}

/// The alias entries, in order of registration: (lower-cased alias, model).
pub type AliasEntries = Seq<(Seq<char>, Seq<char>)>;

/// The model an alias names: the last registration of that alias wins.
pub open spec fn alias_lookup(entries: AliasEntries, key: Seq<char>) -> Option<Seq<char>>
    decreases entries.len(),
{
    if entries.len() == 0 {
        None
    } else if entries.last().0 == key {
        Some(entries.last().1)
    } else {
        alias_lookup(entries.drop_last(), key)
    }
}

pub open spec fn subquery_label() -> Seq<char> {
    "(subquery)"@
}

/// The models a FROM item adds and the aliases it registers.
pub open spec fn factor_models(f: SqlTableFactor) -> Seq<Seq<char>> {
    match f {
        SqlTableFactor::Table { name, .. } => seq![name@],
        _ => Seq::empty(),
    }
}

pub open spec fn factor_aliases(f: SqlTableFactor) -> AliasEntries {
    match f {
        SqlTableFactor::Table { name, alias: Some(a) } => seq![(str_to_lowercase(a@), name@)],
        SqlTableFactor::Derived { alias: Some(a) } => seq![(str_to_lowercase(a@), subquery_label())],
        _ => Seq::empty(),
    }
}

pub open spec fn relations_models(fs: Seq<SqlTableFactor>) -> Seq<Seq<char>>
    decreases fs.len(),
{
    if fs.len() == 0 { Seq::empty() } else { relations_models(fs.drop_last()) + factor_models(fs.last()) }
}

pub open spec fn relations_aliases(fs: Seq<SqlTableFactor>) -> AliasEntries
    decreases fs.len(),
{
    if fs.len() == 0 { Seq::empty() } else { relations_aliases(fs.drop_last()) + factor_aliases(fs.last()) }
}

pub open spec fn direct(model: Seq<char>, column: Seq<char>) -> ColumnLineageView {
    ColumnLineageView { model, column, target: column, transform: TransformView::Direct }
}

pub open spec fn with_transform(l: ColumnLineageView, t: TransformView) -> ColumnLineageView {
    ColumnLineageView { model: l.model, column: l.column, target: l.target, transform: t }
}

pub open spec fn unknown_model() -> Seq<char> {
    "unknown"@
}

/// The lineage of an expression: a bare column comes from the only source
/// model (or an unknown one when there are several); a qualified column from
/// the model its qualifier aliases (or the qualifier itself); a cast keeps
/// its operand's lineage; a call takes the lineage of its first positional
/// argument that has one, as an aggregation by the upper-cased function
/// name. Anything else has none.
pub open spec fn expr_lineage(e: SqlExpr, aliases: AliasEntries, models: Seq<Seq<char>>) -> Option<ColumnLineageView>
    decreases e,
{
    match e {
        SqlExpr::Identifier(c) => Some(direct(if models.len() == 1 { models[0] } else { unknown_model() }, c@)),
        SqlExpr::CompoundIdentifier(parts) => {
            if parts@.len() >= 2 {
                let table = str_to_lowercase(parts@[parts@.len() - 2]@);
                let model = match alias_lookup(aliases, table) { Some(m) => m, None => table };
                Some(direct(model, parts@[parts@.len() - 1]@))
            } else {
                None
            }
        },
        SqlExpr::Cast(inner) => match expr_lineage(*inner, aliases, models) {
            Some(l) => Some(with_transform(l, TransformView::Cast)),
            None => None,
        },
        SqlExpr::Function { name, args } => match args {
            Some(list) => match args_lineage(*list, aliases, models) {
                Some(l) => Some(with_transform(l, TransformView::Aggregation(str_to_uppercase(name@)))),
                None => None,
            },
            None => None,
        },
        SqlExpr::Other => None,
    }
}

/// The lineage of the first positional argument that has one.
pub open spec fn args_lineage(a: ArgList, aliases: AliasEntries, models: Seq<Seq<char>>) -> Option<ColumnLineageView>
    decreases a,
{
    match a {
        ArgList::Nil => None,
        ArgList::Cons(arg, rest) => {
            let here = match *arg {
                FunctionArgument::Unnamed(x) => expr_lineage(x, aliases, models),
                FunctionArgument::Other => None,
            };
            match here {
                Some(l) => Some(l),
                None => args_lineage(*rest, aliases, models),
            }
        },
    }
}

/// The lineage of one call argument: a positional expression's lineage.
pub open spec fn argument_lineage(f: FunctionArgument, aliases: AliasEntries, models: Seq<Seq<char>>)
    -> Option<ColumnLineageView> {
    match f {
        FunctionArgument::Unnamed(x) => expr_lineage(x, aliases, models),
        FunctionArgument::Other => None,
    }
}

/// A call's arguments are read in their order: the list's lineage is that
/// of its first argument that has one, and none when no argument has one.
pub proof fn lemma_args_lineage_first(a: ArgList, aliases: AliasEntries, models: Seq<Seq<char>>, j: int)
    ensures
        0 <= j < arg_items(a).len() && argument_lineage(arg_items(a)[j], aliases, models) is Some
            && (forall|i: int| 0 <= i < j ==> argument_lineage(#[trigger] arg_items(a)[i], aliases, models) is None)
            ==> args_lineage(a, aliases, models) == argument_lineage(arg_items(a)[j], aliases, models),
        (forall|i: int| 0 <= i < arg_items(a).len() ==> argument_lineage(#[trigger] arg_items(a)[i], aliases, models) is None)
            ==> args_lineage(a, aliases, models) is None,
    decreases a,
{
    match a {
        ArgList::Nil => {},
        ArgList::Cons(arg, rest) => {
            let items = arg_items(a);
            assert(items =~= seq![*arg] + arg_items(*rest));
            assert(items[0] == *arg);
            assert forall|i: int| 0 <= i < arg_items(*rest).len() implies #[trigger] arg_items(*rest)[i] == items[i + 1] by {}
            lemma_args_lineage_first(*rest, aliases, models, j - 1);
            if 0 <= j < items.len() && argument_lineage(items[j], aliases, models) is Some
                && (forall|i: int| 0 <= i < j ==> argument_lineage(#[trigger] items[i], aliases, models) is None) {
                if j > 0 {
                    assert(argument_lineage(items[0], aliases, models) is None);
                    assert forall|i: int| 0 <= i < j - 1 implies
                        argument_lineage(#[trigger] arg_items(*rest)[i], aliases, models) is None by {
                        assert(arg_items(*rest)[i] == items[i + 1]);
                    }
                    assert(arg_items(*rest)[j - 1] == items[j]);
                }
            }
            if forall|i: int| 0 <= i < items.len() ==> argument_lineage(#[trigger] items[i], aliases, models) is None {
                assert(argument_lineage(items[0], aliases, models) is None);
                assert forall|i: int| 0 <= i < arg_items(*rest).len() implies
                    argument_lineage(#[trigger] arg_items(*rest)[i], aliases, models) is None by {
                    assert(arg_items(*rest)[i] == items[i + 1]);
                }
            }
        },
    }
}

/// The lineage a projection item contributes; an alias renames the target.
pub open spec fn item_lineage(i: SqlSelectItem, aliases: AliasEntries, models: Seq<Seq<char>>) -> Option<ColumnLineageView> {
    match i {
        SqlSelectItem::UnnamedExpr(e) => expr_lineage(e, aliases, models),
        SqlSelectItem::ExprWithAlias(e, a) => match expr_lineage(e, aliases, models) {
            Some(l) => Some(ColumnLineageView { model: l.model, column: l.column, target: a@, transform: l.transform }),
            None => None,
        },
        _ => None,
    }
}

pub open spec fn projection_lineage(items: Seq<SqlSelectItem>, aliases: AliasEntries, models: Seq<Seq<char>>)
    -> Seq<ColumnLineageView>
    decreases items.len(),
{
    if items.len() == 0 {
        Seq::empty()
    } else {
        let prev = projection_lineage(items.drop_last(), aliases, models);
        match item_lineage(items.last(), aliases, models) {
            Some(l) => prev.push(l),
            None => prev,
        }
    }
}

pub open spec fn has_wildcard(items: Seq<SqlSelectItem>) -> bool {
    exists|i: int| 0 <= i < items.len() && (#[trigger] items[i]) is Wildcard
}

fn lineage_edge(model: String, column: &String, transform: TransformKind) -> (r: ColumnLineage)
    ensures
        r@ == (ColumnLineageView { model: model@, column: column@, target: column@, transform: transform@ }),
{
    ColumnLineage {
        source: QualifiedColumn { model, column: column.clone() },
        target_column: column.clone(),
        transform,
    }
}

fn lookup_alias(keys: &Vec<String>, vals: &Vec<String>, key: &str) -> (r: Option<String>)
    requires
        keys@.len() == vals@.len(),
    ensures
        match (r, alias_lookup(zip_entries(views(keys@), views(vals@)), key@)) {
            (Some(m), Some(v)) => m@ == v,
            (None, None) => true,
            _ => false,
        },
{
    let ghost ent = zip_entries(views(keys@), views(vals@));
    assert(ent.take(keys@.len() as int) =~= ent);
    let mut i: usize = keys.len();
    while i > 0
        invariant
            keys@.len() == vals@.len(),
            i <= keys@.len(),
            ent == zip_entries(views(keys@), views(vals@)),
            alias_lookup(ent, key@) == alias_lookup(ent.take(i as int), key@),
        decreases i,
    {
        let ghost pre = ent.take(i as int);
        assert(pre.drop_last() =~= ent.take(i as int - 1));
        assert(views(keys@)[i - 1] == keys@[i - 1]@);
        assert(views(vals@)[i - 1] == vals@[i - 1]@);
        assert(pre.last() == (keys@[i - 1]@, vals@[i - 1]@));
        if str_eq(keys[i - 1].as_str(), key) {
            return Some(vals[i - 1].clone());
        }
        i = i - 1;
    }
    assert(ent.take(0) =~= Seq::<(Seq<char>, Seq<char>)>::empty());
    None
}

/// The entries formed by pairing keys with values.
pub open spec fn zip_entries(keys: Seq<Seq<char>>, vals: Seq<Seq<char>>) -> AliasEntries {
    Seq::new(keys.len(), |i: int| (keys[i], vals[i]))
}

pub struct LineageExtractor;

impl LineageExtractor {
    /// The lineage of an expression (see `expr_lineage`).
    pub fn extract_expr_lineage(e: &SqlExpr, alias_keys: &Vec<String>, alias_vals: &Vec<String>,
        source_models: &Vec<String>) -> (r: Option<ColumnLineage>)
        requires
            alias_keys@.len() == alias_vals@.len(),
        ensures
            match (r, expr_lineage(*e, zip_entries(views(alias_keys@), views(alias_vals@)), views(source_models@))) {
                (Some(l), Some(v)) => l@ == v,
                (None, None) => true,
                _ => false,
            },
        decreases e,
    {
        let ghost ent = zip_entries(views(alias_keys@), views(alias_vals@));
        let ghost ms = views(source_models@);
        match e {
            SqlExpr::Identifier(c) => {
                let model = if source_models.len() == 1 {
                    assert(ms[0] == source_models@[0]@);
                    source_models[0].clone()
                } else {
                    to_owned_string("unknown")
                };
                Some(lineage_edge(model, c, TransformKind::Direct))
            },
            SqlExpr::CompoundIdentifier(parts) => {
                if parts.len() >= 2 {
                    let table = to_lowercase(parts[parts.len() - 2].as_str());
                    let model = match lookup_alias(alias_keys, alias_vals, table.as_str()) {
                        Some(m) => m,
                        None => table,
                    };
                    Some(lineage_edge(model, &parts[parts.len() - 1], TransformKind::Direct))
                } else {
                    None
                }
            },
            SqlExpr::Cast(inner) => {
                match Self::extract_expr_lineage(inner, alias_keys, alias_vals, source_models) {
                    Some(mut l) => {
                        l.transform = TransformKind::Cast;
                        Some(l)
                    },
                    None => None,
                }
            },
            SqlExpr::Function { name, args } => {
                match args {
                    Some(list) => {
                        match Self::extract_args_lineage(list, alias_keys, alias_vals, source_models) {
                            Some(mut l) => {
                                l.transform = TransformKind::Aggregation(to_uppercase(name.as_str()));
                                Some(l)
                            },
                            None => None,
                        }
                    },
                    None => None,
                }
            },
            SqlExpr::Other => None,
        }
    }

    /// The lineage of the first positional argument that has one.
    fn extract_args_lineage(a: &ArgList, alias_keys: &Vec<String>, alias_vals: &Vec<String>,
        source_models: &Vec<String>) -> (r: Option<ColumnLineage>)
        requires
            alias_keys@.len() == alias_vals@.len(),
        ensures
            match (r, args_lineage(*a, zip_entries(views(alias_keys@), views(alias_vals@)), views(source_models@))) {
                (Some(l), Some(v)) => l@ == v,
                (None, None) => true,
                _ => false,
            },
        decreases a,
    {
        match a {
            ArgList::Nil => None,
            ArgList::Cons(arg, rest) => {
                let here = match &**arg {
                    FunctionArgument::Unnamed(x) => Self::extract_expr_lineage(x, alias_keys, alias_vals, source_models),
                    FunctionArgument::Other => None,
                };
                match here {
                    Some(l) => Some(l),
                    None => Self::extract_args_lineage(rest, alias_keys, alias_vals, source_models),
                }
            },
        }
    }

    /// Records the models and aliases a FROM item brings: a table adds its
    /// name and, with an alias, maps the lower-cased alias to it; an aliased
    /// subquery maps its alias to `(subquery)`.
    pub fn extract_table_factor(factor: &SqlTableFactor, models: &mut Vec<String>,
        alias_keys: &mut Vec<String>, alias_vals: &mut Vec<String>)
        requires
            old(alias_keys)@.len() == old(alias_vals)@.len(),
        ensures
            final(alias_keys)@.len() == final(alias_vals)@.len(),
            views(final(models)@) == views(old(models)@) + factor_models(*factor),
            zip_entries(views(final(alias_keys)@), views(final(alias_vals)@))
                == zip_entries(views(old(alias_keys)@), views(old(alias_vals)@)) + factor_aliases(*factor),
    {
        let ghost m0 = views(models@);
        let ghost e0 = zip_entries(views(alias_keys@), views(alias_vals@));
        match factor {
            SqlTableFactor::Table { name, alias } => {
                models.push(name.clone());
                assert(views(models@) =~= m0 + factor_models(*factor));
                match alias {
                    Some(a) => {
                        alias_keys.push(to_lowercase(a.as_str()));
                        alias_vals.push(name.clone());
                    },
                    None => {},
                }
                assert(zip_entries(views(alias_keys@), views(alias_vals@)) =~= e0 + factor_aliases(*factor));
            },
            SqlTableFactor::Derived { alias } => {
                assert(views(models@) =~= m0 + factor_models(*factor));
                match alias {
                    Some(a) => {
                        alias_keys.push(to_lowercase(a.as_str()));
                        alias_vals.push(to_owned_string("(subquery)"));
                    },
                    None => {},
                }
                assert(zip_entries(views(alias_keys@), views(alias_vals@)) =~= e0 + factor_aliases(*factor));
            },
            SqlTableFactor::Other => {
                assert(views(models@) =~= m0 + factor_models(*factor));
                assert(zip_entries(views(alias_keys@), views(alias_vals@)) =~= e0 + factor_aliases(*factor));
            },
        }
    }

    /// The lineage of a SELECT: its source models in FROM order, the
    /// lineage of each projected expression that has one, and whether it
    /// selects `*`.
    pub fn extract_select_lineage(select: &SqlSelect) -> (r: LineageResult)
        ensures
            views(r.source_models@) == relations_models(select.relations@),
            edge_views(r.columns@) == projection_lineage(select.projection@, relations_aliases(select.relations@),
                relations_models(select.relations@)),
            r.has_star == has_wildcard(select.projection@),
    {
        let mut models: Vec<String> = Vec::new();
        let mut keys: Vec<String> = Vec::new();
        let mut vals: Vec<String> = Vec::new();
        let mut i: usize = 0;
        while i < select.relations.len()
            invariant
                i <= select.relations@.len(),
                keys@.len() == vals@.len(),
                views(models@) == relations_models(select.relations@.take(i as int)),
                zip_entries(views(keys@), views(vals@)) == relations_aliases(select.relations@.take(i as int)),
            decreases select.relations@.len() - i,
        {
            let ghost pre = select.relations@.take(i as int + 1);
            assert(pre.drop_last() =~= select.relations@.take(i as int));
            assert(pre.last() == select.relations@[i as int]);
            Self::extract_table_factor(&select.relations[i], &mut models, &mut keys, &mut vals);
            i = i + 1;
        }
        assert(select.relations@.take(select.relations@.len() as int) =~= select.relations@);
        let ghost ent = relations_aliases(select.relations@);
        let ghost ms = relations_models(select.relations@);
        let mut columns: Vec<ColumnLineage> = Vec::new();
        let mut has_star = false;
        let mut j: usize = 0;
        while j < select.projection.len()
            invariant
                j <= select.projection@.len(),
                keys@.len() == vals@.len(),
                zip_entries(views(keys@), views(vals@)) == ent,
                views(models@) == ms,
                ent == relations_aliases(select.relations@),
                ms == relations_models(select.relations@),
                edge_views(columns@) == projection_lineage(select.projection@.take(j as int), ent, ms),
                has_star == has_wildcard(select.projection@.take(j as int)),
            decreases select.projection@.len() - j,
        {
            let ghost pre = select.projection@.take(j as int + 1);
            assert(pre.drop_last() =~= select.projection@.take(j as int));
            assert(pre.last() == select.projection@[j as int]);
            let ghost before = columns@;
            match &select.projection[j] {
                SqlSelectItem::Wildcard => {
                    has_star = true;
                    assert(pre[j as int] is Wildcard);
                },
                SqlSelectItem::UnnamedExpr(e) => {
                    match Self::extract_expr_lineage(e, &keys, &vals, &models) {
                        Some(l) => {
                            columns.push(l);
                            assert(edge_views(columns@) =~= edge_views(before).push(columns@[before.len() as int]@));
                        },
                        None => {},
                    }
                },
                SqlSelectItem::ExprWithAlias(e, a) => {
                    match Self::extract_expr_lineage(e, &keys, &vals, &models) {
                        Some(mut l) => {
                            l.target_column = a.clone();
                            columns.push(l);
                            assert(edge_views(columns@) =~= edge_views(before).push(columns@[before.len() as int]@));
                        },
                        None => {},
                    }
                },
                SqlSelectItem::Other => {},
            }
            assert forall|k: int| 0 <= k < j && (#[trigger] select.projection@.take(j as int)[k]) is Wildcard
                implies pre[k] is Wildcard by {
                assert(pre[k] == select.projection@.take(j as int)[k]);
            }
            assert forall|k: int| 0 <= k < j + 1 && (#[trigger] pre[k]) is Wildcard && k < j
                implies select.projection@.take(j as int)[k] is Wildcard by {
                assert(pre[k] == select.projection@.take(j as int)[k]);
            }
            j = j + 1;
        }
        assert(select.projection@.take(select.projection@.len() as int) =~= select.projection@);
        LineageResult { source_models: models, columns, has_star }
    }

    /// `l` is the lineage of the SELECT `s`: its source models, its
    /// column edges and whether it selects a wildcard.
    pub open spec fn is_select_lineage(s: SqlSelect, l: LineageResult) -> bool {
        &&& views(l.source_models@) == relations_models(s.relations@)
        &&& edge_views(l.columns@) == projection_lineage(s.projection@, relations_aliases(s.relations@),
            relations_models(s.relations@))
        &&& l.has_star == has_wildcard(s.projection@)
    }

    /// The outcome of extracting lineage from a parsed statement: the
    /// lineage of a plain SELECT, and an error naming why anything else
    /// has none.
    pub open spec fn statement_outcome(stmt: SqlStatement, r: Result<LineageResult, TitanError>) -> bool {
        match stmt {
            SqlStatement::Select(s) => (r matches Ok(l) && Self::is_select_lineage(s, l)),
            SqlStatement::OtherQuery => (r matches Err(TitanError::SqlParseError(m))
                && m@ == "Unsupported query type for lineage"@),
            SqlStatement::CreateTable(_) | SqlStatement::Other => (r matches Err(TitanError::SqlParseError(m))
                && m@ == "Only SELECT statements are supported for lineage"@),
        }
    }

    /// The lineage of a parsed statement: only a query whose body is a
    /// plain SELECT has one.
    pub fn extract_statement(stmt: &SqlStatement) -> (r: Result<LineageResult, TitanError>)
        ensures
            Self::statement_outcome(*stmt, r),
    {
        match stmt {
            SqlStatement::Select(s) => Ok(Self::extract_select_lineage(s)),
            SqlStatement::OtherQuery => Err(TitanError::SqlParseError(to_owned_string("Unsupported query type for lineage"))),
            SqlStatement::CreateTable(_) | SqlStatement::Other => Err(TitanError::SqlParseError(
                to_owned_string("Only SELECT statements are supported for lineage"))),
        }
    }

    /// Parses SQL (generic dialect) and extracts the lineage of its first
    /// statement. A parse failure is a parse error carrying the parser's
    /// message, text with no statement is the parse error "Empty SQL", and
    /// the first statement decides the rest as `extract_statement` does.
    pub fn extract(sql: &str) -> (r: Result<LineageResult, TitanError>)
        ensures
            match sql_statements(sql@, false) {
                Err(m) => (r matches Err(TitanError::SqlParseError(e)) && e@ == m),
                Ok(stmts) => if stmts.len() == 0 {
                    (r matches Err(TitanError::SqlParseError(e)) && e@ == "Empty SQL"@)
                } else {
                    Self::statement_outcome(stmts[0], r)
                },
            },
    {
        match parse_statements(sql, false) {
            Err(e) => Err(TitanError::SqlParseError(e)),
            Ok(stmts) => {
                if stmts.len() == 0 {
                    Err(TitanError::SqlParseError(to_owned_string("Empty SQL")))
                } else {
                    Self::extract_statement(&stmts[0])
                }
            },
        }
    }
}

} // verus!
