//! Rendering of model templates (Jinja, by `minijinja`) and the template
//! functions `ref`, `source`, `var`, `env_var`, `config` and
//! `is_incremental` that models call.

use vstd::prelude::*;
use crate::error::TitanError;
use crate::text::{to_owned_string, str_eq, views, last_index_of_str, index_of_str};
use crate::seqs::{last_index_of, lemma_last_index_of};

verus! {

/// The table `ref(name)` reads in an environment: `<env>_<name>`, or the
/// bare name when no environment is set.
pub open spec fn spec_ref_name(env: Option<Seq<char>>, name: Seq<char>) -> Seq<char> {
    match env {
        Some(e) => if e.len() == 0 { name } else { e + "_"@ + name },
        None => name,
    }
}

pub struct TemplateNames;

impl TemplateNames {
    pub fn ref_name(env: Option<&str>, name: &str) -> (r: String)
        ensures
            r@ == spec_ref_name(match env { Some(e) => Some(e@), None => None }, name@),
    {
        match env {
            Some(e) => {
                if e.unicode_len() == 0 {
                    to_owned_string(name)
                } else {
                    let mut r = to_owned_string(e);
                    r.append("_");
                    r.append(name);
                    r
                }
            },
            None => to_owned_string(name),
        }
    }

    /// The table `source(source_name, table)` reads: the table itself.
    pub fn source_name(source_name: &str, table_name: &str) -> (r: String)
        ensures
            r@ == table_name@,
    {
        to_owned_string(table_name)
    }
}

/// `(key, value)` pairs of text.
pub open spec fn pair_views(v: Seq<(String, String)>) -> Seq<(Seq<char>, Seq<char>)> {
    v.map_values(|p: (String, String)| (p.0@, p.1@))
}

/// The value of the first entry whose key is `key`.
pub open spec fn lookup(entries: Seq<(Seq<char>, Seq<char>)>, key: Seq<char>) -> Option<Seq<char>>
    decreases entries.len(),
{
    if entries.len() == 0 {
        None
    } else if entries[0].0 == key {
        Some(entries[0].1)
    } else {
        lookup(entries.drop_first(), key)
    }
}

/// The value of the first entry of `entries` whose key is `key`.
pub fn lookup_value(entries: &Vec<(String, String)>, key: &str) -> (r: Option<String>)
    ensures
        match r {
            Some(v) => lookup(pair_views(entries@), key@) == Some(v@),
            None => lookup(pair_views(entries@), key@) is None,
        },
{
    let ghost all = pair_views(entries@);
    assert(all.skip(0) =~= all);
    let mut i: usize = 0;
    while i < entries.len()
        invariant
            i <= entries.len(),
            all == pair_views(entries@),
            lookup(all, key@) == lookup(all.skip(i as int), key@),
        decreases entries.len() - i,
    {
        let ghost rest = all.skip(i as int);
        assert(rest[0] == (entries@[i as int].0@, entries@[i as int].1@));
        assert(rest.drop_first() =~= all.skip(i as int + 1));
        if str_eq(entries[i].0.as_str(), key) {
            return Some(entries[i].1.clone());
        }
        i = i + 1;
    }
    assert(all.skip(entries.len() as int).len() == 0);
    None
}

/// The text that `var(name)` gives when no project variables are known
/// and no default is passed.
pub open spec fn unset_var_text() -> Seq<char> {
    "placeholder_var"@
}

/// A value a template reads or a template function answers.
#[derive(Debug)]
pub enum TemplateScalar {
    Text(String),
    Flag(bool),
    /// An undefined value (what looking up a missing variable gives).
    Undefined,
}

pub enum ScalarView {
    Text(Seq<char>),
    Flag(bool),
    Undefined,
}

impl View for TemplateScalar {
    type V = ScalarView;

    open spec fn view(&self) -> ScalarView {
        match self {
            TemplateScalar::Text(t) => ScalarView::Text(t@),
            TemplateScalar::Flag(b) => ScalarView::Flag(*b),
            TemplateScalar::Undefined => ScalarView::Undefined,
        }
    }
}

impl TemplateScalar {
    pub fn copy(&self) -> (r: Self)
        ensures
            r@ == self@,
    {
        match self {
            TemplateScalar::Text(t) => TemplateScalar::Text(t.clone()),
            TemplateScalar::Flag(b) => TemplateScalar::Flag(*b),
            TemplateScalar::Undefined => TemplateScalar::Undefined,
        }
    }
}

/// Named values, as (name, value).
pub open spec fn scalar_pairs(v: Seq<(String, TemplateScalar)>) -> Seq<(Seq<char>, ScalarView)> {
    v.map_values(|p: (String, TemplateScalar)| (p.0@, p.1@))
}

fn copy_scalar_pairs(v: &Vec<(String, TemplateScalar)>) -> (r: Vec<(String, TemplateScalar)>)
    ensures
        scalar_pairs(r@) == scalar_pairs(v@),
{
    let mut r: Vec<(String, TemplateScalar)> = Vec::new();
    let mut i: usize = 0;
    while i < v.len()
        invariant
            i <= v.len(),
            scalar_pairs(r@) == scalar_pairs(v@).take(i as int),
        decreases v.len() - i,
    {
        let ghost before = r@;
        r.push((v[i].0.clone(), v[i].1.copy()));
        assert(scalar_pairs(r@) =~= scalar_pairs(v@).take(i as int + 1)) by {
            assert(scalar_pairs(r@) =~= scalar_pairs(before).push((v@[i as int].0@, v@[i as int].1@)));
        }
        i = i + 1;
    }
    assert(scalar_pairs(v@).take(v.len() as int) =~= scalar_pairs(v@));
    r
}

/// The value of the last entry named `key` (a later entry replaces an
/// earlier one, as in a map).
pub open spec fn last_scalar(entries: Seq<(Seq<char>, ScalarView)>, key: Seq<char>) -> Option<ScalarView>
    decreases entries.len(),
{
    if entries.len() == 0 {
        None
    } else if entries.last().0 == key {
        Some(entries.last().1)
    } else {
        last_scalar(entries.drop_last(), key)
    }
}

fn last_scalar_value(entries: &Vec<(String, TemplateScalar)>, key: &str) -> (r: Option<TemplateScalar>)
    ensures
        match r {
            Some(v) => last_scalar(scalar_pairs(entries@), key@) == Some(v@),
            None => last_scalar(scalar_pairs(entries@), key@) is None,
        },
{
    let ghost all = scalar_pairs(entries@);
    let mut found: Option<TemplateScalar> = None;
    let mut i: usize = 0;
    while i < entries.len()
        invariant
            i <= entries.len(),
            all == scalar_pairs(entries@),
            match found {
                Some(v) => last_scalar(all.take(i as int), key@) == Some(v@),
                None => last_scalar(all.take(i as int), key@) is None,
            },
        decreases entries.len() - i,
    {
        assert(all.take(i as int + 1).drop_last() =~= all.take(i as int));
        assert(all.take(i as int + 1).last() == (entries@[i as int].0@, entries@[i as int].1@));
        if str_eq(entries[i].0.as_str(), key) {
            found = Some(entries[i].1.copy());
        }
        i = i + 1;
    }
    assert(all.take(entries.len() as int) =~= all);
    found
}

/// The functions that models call.
#[derive(Debug, Clone, Copy, PartialEq, Eq, Structural)]
pub enum TemplateFunction {
    Ref,
    Source,
    Var,
    EnvVar,
    Config,
    IsIncremental,
}

/// The name a template calls a function by.
pub open spec fn function_name(f: TemplateFunction) -> Seq<char> {
    match f {
        TemplateFunction::Ref => "ref"@,
        TemplateFunction::Source => "source"@,
        TemplateFunction::Var => "var"@,
        TemplateFunction::EnvVar => "env_var"@,
        TemplateFunction::Config => "config"@,
        TemplateFunction::IsIncremental => "is_incremental"@,
    }
}

fn function_name_text(f: TemplateFunction) -> (r: &'static str)
    ensures
        r@ == function_name(f),
{
    match f {
        TemplateFunction::Ref => "ref",
        TemplateFunction::Source => "source",
        TemplateFunction::Var => "var",
        TemplateFunction::EnvVar => "env_var",
        TemplateFunction::Config => "config",
        TemplateFunction::IsIncremental => "is_incremental",
    }
}

/// The functions every template can call, in order.
pub open spec fn model_functions() -> Seq<TemplateFunction> {
    seq![TemplateFunction::Ref, TemplateFunction::Source, TemplateFunction::Var, TemplateFunction::EnvVar,
        TemplateFunction::Config, TemplateFunction::IsIncremental]
}

/// What a render context binds a name to.
#[derive(Debug)]
pub enum ContextValue {
    Scalar(TemplateScalar),
    /// A record of named values (read as `name.field`).
    Record(Vec<(String, TemplateScalar)>),
    Function(TemplateFunction),
}

pub enum ContextView {
    Scalar(ScalarView),
    Record(Seq<(Seq<char>, ScalarView)>),
    Function(TemplateFunction),
}

impl View for ContextValue {
    type V = ContextView;

    open spec fn view(&self) -> ContextView {
        match self {
            ContextValue::Scalar(s) => ContextView::Scalar(s@),
            ContextValue::Record(r) => ContextView::Record(scalar_pairs(r@)),
            ContextValue::Function(f) => ContextView::Function(*f),
        }
    }
}

impl ContextValue {
    pub fn copy(&self) -> (r: Self)
        ensures
            r@ == self@,
    {
        match self {
            ContextValue::Scalar(s) => ContextValue::Scalar(s.copy()),
            ContextValue::Record(r) => ContextValue::Record(copy_scalar_pairs(r)),
            ContextValue::Function(f) => ContextValue::Function(*f),
        }
    }
}

pub open spec fn context_views(v: Seq<(String, ContextValue)>) -> Seq<(Seq<char>, ContextView)> {
    v.map_values(|p: (String, ContextValue)| (p.0@, p.1@))
}

pub open spec fn context_keys(c: Seq<(Seq<char>, ContextView)>) -> Seq<Seq<char>> {
    c.map_values(|p: (Seq<char>, ContextView)| p.0)
}

/// How a template treats undefined values.
#[derive(Debug, Clone, Copy, PartialEq, Eq, Structural)]
pub enum UndefinedMode {
    /// Using an undefined value is an error.
    Strict,
    Lenient,
}

/// What the template functions of one render answer from: the environment
/// name (`titan_env`), the project variables (`vars`, when the context has
/// them), the process environment and the run kind.
pub struct TemplateFunctions {
    pub titan_env: Option<String>,
    pub vars: Option<Vec<(String, TemplateScalar)>>,
    pub env_vars: Vec<(String, String)>,
    pub is_incremental: bool,
}

pub struct AnswersView {
    pub titan_env: Option<Seq<char>>,
    pub vars: Option<Seq<(Seq<char>, ScalarView)>>,
    pub env_vars: Seq<(Seq<char>, Seq<char>)>,
    pub is_incremental: bool,
}

impl View for TemplateFunctions {
    type V = AnswersView;

    open spec fn view(&self) -> AnswersView {
        AnswersView {
            titan_env: match self.titan_env { Some(e) => Some(e@), None => None },
            vars: match self.vars { Some(v) => Some(scalar_pairs(v@)), None => None },
            env_vars: pair_views(self.env_vars@),
            is_incremental: self.is_incremental,
        }
    }
}

/// The text of a value passed where text is expected; an undefined value
/// is refused.
pub open spec fn arg_text(s: ScalarView) -> Option<Seq<char>> {
    match s {
        ScalarView::Text(t) => Some(t),
        ScalarView::Flag(b) => Some(if b { "True"@ } else { "False"@ }),
        ScalarView::Undefined => None,
    }
}

fn arg_text_of(s: &TemplateScalar) -> (r: Option<String>)
    ensures
        match r {
            Some(t) => arg_text(s@) == Some(t@),
            None => arg_text(s@) is None,
        },
{
    match s {
        TemplateScalar::Text(t) => Some(t.clone()),
        TemplateScalar::Flag(b) => Some(to_owned_string(if *b { "True" } else { "False" })),
        TemplateScalar::Undefined => None,
    }
}

/// The message of a call with the wrong arguments.
pub open spec fn bad_arguments() -> Seq<char> {
    "invalid arguments"@
}

/// What a call of `f` with the arguments `args` answers:
/// - `ref(name)`: the model's table in the environment;
/// - `source(source, table)`: the table;
/// - `var(name[, default])`: the project variable (undefined when the
///   variables are known but this one is not), else the default, else a
///   placeholder;
/// - `env_var(name[, default])`: the environment variable, else the
///   default, else empty text;
/// - `config(...)`: empty text;
/// - `is_incremental()`: whether the run is incremental.
/// Other argument counts, and undefined text arguments, are errors.
pub open spec fn spec_call(a: AnswersView, f: TemplateFunction, args: Seq<ScalarView>) -> Result<ScalarView, Seq<char>> {
    match f {
        TemplateFunction::Ref => if args.len() == 1 && arg_text(args[0]) is Some {
            Ok(ScalarView::Text(spec_ref_name(a.titan_env, arg_text(args[0])->0)))
        } else {
            Err(bad_arguments())
        },
        TemplateFunction::Source => if args.len() == 2 && arg_text(args[0]) is Some && arg_text(args[1]) is Some {
            Ok(ScalarView::Text(arg_text(args[1])->0))
        } else {
            Err(bad_arguments())
        },
        TemplateFunction::Var => if 1 <= args.len() <= 2 && arg_text(args[0]) is Some {
            match a.vars {
                Some(v) => match last_scalar(v, arg_text(args[0])->0) {
                    Some(x) => Ok(x),
                    None => Ok(ScalarView::Undefined),
                },
                None => if args.len() == 2 && !(args[1] is Undefined) {
                    Ok(args[1])
                } else {
                    Ok(ScalarView::Text(unset_var_text()))
                },
            }
        } else {
            Err(bad_arguments())
        },
        TemplateFunction::EnvVar => if 1 <= args.len() <= 2 && arg_text(args[0]) is Some
            && (args.len() == 2 ==> arg_text(args[1]) is Some) {
            match lookup(a.env_vars, arg_text(args[0])->0) {
                Some(v) => Ok(ScalarView::Text(v)),
                None => Ok(ScalarView::Text(if args.len() == 2 { arg_text(args[1])->0 } else { Seq::empty() })),
            }
        } else {
            Err(bad_arguments())
        },
        TemplateFunction::Config => Ok(ScalarView::Text(Seq::empty())),
        TemplateFunction::IsIncremental => if args.len() == 0 {
            Ok(ScalarView::Flag(a.is_incremental))
        } else {
            Err(bad_arguments())
        },
    }
}

pub open spec fn scalar_views(v: Seq<TemplateScalar>) -> Seq<ScalarView> {
    v.map_values(|s: TemplateScalar| s@)
}

impl Clone for TemplateFunctions {
    fn clone(&self) -> (r: Self)
        ensures
            r@ == self@,
    {
        TemplateFunctions {
            titan_env: match &self.titan_env { Some(e) => Some(e.clone()), None => None },
            vars: match &self.vars { Some(v) => Some(copy_scalar_pairs(v)), None => None },
            env_vars: copy_pairs(&self.env_vars),
            is_incremental: self.is_incremental,
        }
    }
}

impl TemplateFunctions {
    /// Answers a call of `f` from a template.
    pub fn call(&self, f: TemplateFunction, args: &Vec<TemplateScalar>) -> (r: Result<TemplateScalar, String>)
        ensures
            match r {
                Ok(v) => spec_call(self@, f, scalar_views(args@)) == Ok::<ScalarView, Seq<char>>(v@),
                Err(m) => spec_call(self@, f, scalar_views(args@)) == Err::<ScalarView, Seq<char>>(m@),
            },
    {
        let ghost av = scalar_views(args@);
        let n = args.len();
        proof {
            if n >= 1 { assert(av[0] == args@[0]@); }
            if n >= 2 { assert(av[1] == args@[1]@); }
        }
        let bad = to_owned_string("invalid arguments");
        match f {
            TemplateFunction::Ref => {
                if n != 1 { return Err(bad); }
                match arg_text_of(&args[0]) {
                    Some(name) => {
                        let t = match &self.titan_env {
                            Some(e) => TemplateNames::ref_name(Some(e.as_str()), name.as_str()),
                            None => TemplateNames::ref_name(None, name.as_str()),
                        };
                        Ok(TemplateScalar::Text(t))
                    },
                    None => Err(bad),
                }
            },
            TemplateFunction::Source => {
                if n != 2 { return Err(bad); }
                if arg_text_of(&args[0]).is_none() { return Err(bad); }
                match arg_text_of(&args[1]) {
                    Some(t) => Ok(TemplateScalar::Text(t)),
                    None => Err(bad),
                }
            },
            TemplateFunction::Var => {
                if n < 1 || n > 2 { return Err(bad); }
                match arg_text_of(&args[0]) {
                    None => Err(bad),
                    Some(name) => match &self.vars {
                        Some(v) => match last_scalar_value(v, name.as_str()) {
                            Some(x) => Ok(x),
                            None => Ok(TemplateScalar::Undefined),
                        },
                        None => {
                            if n == 2 && !(matches!(&args[1], TemplateScalar::Undefined)) {
                                Ok(args[1].copy())
                            } else {
                                Ok(TemplateScalar::Text(to_owned_string("placeholder_var")))
                            }
                        },
                    },
                }
            },
            TemplateFunction::EnvVar => {
                if n < 1 || n > 2 { return Err(bad); }
                let name = match arg_text_of(&args[0]) {
                    Some(t) => t,
                    None => { return Err(bad); },
                };
                let default = if n == 2 {
                    match arg_text_of(&args[1]) {
                        Some(t) => t,
                        None => { return Err(bad); },
                    }
                } else {
                    String::new()
                };
                match lookup_value(&self.env_vars, name.as_str()) {
                    Some(v) => Ok(TemplateScalar::Text(v)),
                    None => Ok(TemplateScalar::Text(default)),
                }
            },
            TemplateFunction::Config => Ok(TemplateScalar::Text(String::new())),
            TemplateFunction::IsIncremental => {
                if n != 0 { return Err(bad); }
                Ok(TemplateScalar::Flag(self.is_incremental))
            },
        }
    }
}

fn copy_pairs(v: &Vec<(String, String)>) -> (r: Vec<(String, String)>)
    ensures
        pair_views(r@) == pair_views(v@),
{
    let mut r: Vec<(String, String)> = Vec::new();
    let mut i: usize = 0;
    while i < v.len()
        invariant
            i <= v.len(),
            pair_views(r@) == pair_views(v@).take(i as int),
        decreases v.len() - i,
    {
        let ghost before = r@;
        r.push((v[i].0.clone(), v[i].1.clone()));
        assert(pair_views(r@) =~= pair_views(v@).take(i as int + 1)) by {
            assert(pair_views(r@) =~= pair_views(before).push((v@[i as int].0@, v@[i as int].1@)));
        }
        i = i + 1;
    }
    assert(pair_views(v@).take(v.len() as int) =~= pair_views(v@));
    r
}

/// A `minijinja` value, carried through unchanged.
#[verifier::external_type_specification]
#[verifier::external_body]
pub struct ExTemplateValue(minijinja::Value);

/// `minijinja`'s handling of undefined values, carried through unchanged.
#[verifier::external_type_specification]
#[verifier::external_body]
pub struct ExUndefinedBehavior(minijinja::UndefinedBehavior);

/// What `minijinja` renders: `template` rendered with undefined values
/// handled as `mode` says and with `context`'s names bound (a function
/// entry answering as `spec_call` over `answers` says); the rendered text,
/// or the message of the error.
pub uninterp spec fn minijinja_render(template: Seq<char>, mode: UndefinedMode,
    context: Seq<(Seq<char>, ContextView)>, answers: AnswersView) -> Result<Seq<char>, Seq<char>>;

/// `minijinja`'s handling of undefined values for a mode.
#[verifier::external_body]
fn undefined_behavior(mode: UndefinedMode) -> (r: minijinja::UndefinedBehavior) {
    match mode {
        UndefinedMode::Strict => minijinja::UndefinedBehavior::Strict,
        UndefinedMode::Lenient => minijinja::UndefinedBehavior::Lenient,
    }
}

/// A value as a `minijinja::Value`.
#[verifier::external_body]
fn scalar_value(s: &TemplateScalar) -> (r: minijinja::Value) {
    match s {
        TemplateScalar::Text(t) => minijinja::Value::from(t.as_str()),
        TemplateScalar::Flag(b) => minijinja::Value::from(*b),
        TemplateScalar::Undefined => minijinja::Value::UNDEFINED,
    }
}

/// A `minijinja::Value` passed to a template function, by its kind.
#[verifier::external_body]
fn scalar_of(v: &minijinja::Value) -> (r: TemplateScalar) {
    match v.kind() {
        minijinja::value::ValueKind::Undefined => TemplateScalar::Undefined,
        minijinja::value::ValueKind::Bool => TemplateScalar::Flag(v.is_true()),
        _ => TemplateScalar::Text(v.to_string()),
    }
}

/// A context entry as a `minijinja::Value`; a function entry becomes a
/// callable whose calls `TemplateFunctions::call` answers.
#[verifier::external_body]
fn context_value(c: &ContextValue, answers: &TemplateFunctions) -> (r: minijinja::Value) {
    match c {
        ContextValue::Scalar(s) => scalar_value(s),
        ContextValue::Record(r) => minijinja::Value::from_iter(r.iter().map(|(k, s)| (k.clone(), scalar_value(s)))),
        ContextValue::Function(f) => {
            let (a, f) = (answers.clone(), *f);
            minijinja::Value::from_function(move |args: minijinja::value::Rest<minijinja::Value>| {
                a.call(f, &args.iter().map(scalar_of).collect()).map(|s| scalar_value(&s))
                    .map_err(|m| minijinja::Error::new(minijinja::ErrorKind::InvalidOperation, m))
            })
        },
    }
}

/// Renders `template` (`minijinja::Environment::render_str`) in a fresh
/// environment with `mode`'s handling of undefined values and `context` as
/// the render context; an error becomes its message (its `Display`). The
/// outcome is a function of the arguments alone, named `minijinja_render`;
/// what `minijinja` writes is not stated.
#[verifier::external_body]
fn render_template(template: &str, mode: UndefinedMode, context: &Vec<(String, ContextValue)>,
    answers: &TemplateFunctions) -> (r: Result<String, String>)
    ensures
        match r {
            Ok(t) => minijinja_render(template@, mode, context_views(context@), answers@)
                == Ok::<Seq<char>, Seq<char>>(t@),
            Err(m) => minijinja_render(template@, mode, context_views(context@), answers@)
                == Err::<Seq<char>, Seq<char>>(m@),
        },
{
    let mut env = minijinja::Environment::new();
    env.set_undefined_behavior(undefined_behavior(mode));
    let ctx: std::collections::BTreeMap<String, minijinja::Value> =
        context.iter().map(|(k, v)| (k.clone(), context_value(v, answers))).collect();
    env.render_str(template, ctx).map_err(|e| e.to_string())
}

/// The names a render binds itself: the model, the target and the run kind.
pub open spec fn is_render_name(k: Seq<char>) -> bool {
    k == "this"@ || k == "target"@ || k == "is_incremental_val"@
}

/// The function entries of a render context: each model function whose
/// name the caller's values do not already bind.
pub open spec fn function_entries(keys: Seq<Seq<char>>, fs: Seq<TemplateFunction>) -> Seq<(Seq<char>, ContextView)>
    decreases fs.len(),
{
    if fs.len() == 0 {
        Seq::empty()
    } else {
        let p = function_entries(keys, fs.drop_last());
        if keys.contains(function_name(fs.last())) {
            p
        } else {
            p.push((function_name(fs.last()), ContextView::Function(fs.last())))
        }
    }
}

/// The caller's values that a render keeps: each name's last value, unless
/// the render binds the name itself.
pub open spec fn kept_values(c: Seq<(Seq<char>, ContextView)>, n: int) -> Seq<(Seq<char>, ContextView)>
    decreases n,
{
    if n <= 0 {
        Seq::empty()
    } else {
        let p = kept_values(c, n - 1);
        let e = c[n - 1];
        if is_render_name(e.0) || last_index_of(context_keys(c), e.0) != n - 1 {
            p
        } else {
            p.push(e)
        }
    }
}

/// The render context of a model: `this.name`, `target.name` and the run
/// kind, the model functions, and the caller's values.
pub open spec fn render_context(c: Seq<(Seq<char>, ContextView)>, this_model: Seq<char>, target: Seq<char>,
    is_inc: bool) -> Seq<(Seq<char>, ContextView)> {
    seq![
        ("this"@, ContextView::Record(seq![("name"@, ScalarView::Text(this_model))])),
        ("target"@, ContextView::Record(seq![("name"@, ScalarView::Text(target))])),
        ("is_incremental_val"@, ContextView::Scalar(ScalarView::Flag(is_inc))),
    ] + function_entries(context_keys(c), model_functions()) + kept_values(c, c.len() as int)
}

/// The caller's last value for `key`.
pub open spec fn last_context_value(c: Seq<(Seq<char>, ContextView)>, key: Seq<char>) -> Option<ContextView> {
    let i = last_index_of(context_keys(c), key);
    if i >= 0 { Some(c[i].1) } else { None }
}

/// What the template functions answer from in a render: `titan_env` from
/// the caller's values (empty unless it is text), `vars` likewise (empty
/// unless it is a record), the engine's environment and the run kind.
pub open spec fn render_answers(c: Seq<(Seq<char>, ContextView)>, env_vars: Seq<(Seq<char>, Seq<char>)>,
    is_inc: bool) -> AnswersView {
    AnswersView {
        titan_env: match last_context_value(c, "titan_env"@) {
            Some(ContextView::Scalar(ScalarView::Text(t))) => Some(t),
            Some(_) => Some(Seq::empty()),
            None => None,
        },
        vars: match last_context_value(c, "vars"@) {
            Some(ContextView::Record(r)) => Some(r),
            Some(_) => Some(Seq::empty()),
            None => None,
        },
        env_vars,
        is_incremental: is_inc,
    }
}

/// The prefix of a rendering failure's message.
pub open spec fn render_failure_prefix() -> Seq<char> {
    "Template rendering failed: "@
}

/// The outcome of rendering `template` with the caller's values `c`:
/// strict about undefined values, over `render_context` and
/// `render_answers`.
pub open spec fn spec_render(template: Seq<char>, c: Seq<(Seq<char>, ContextView)>,
    env_vars: Seq<(Seq<char>, Seq<char>)>, this_model: Seq<char>, target: Seq<char>, is_inc: bool)
    -> Result<Seq<char>, Seq<char>> {
    minijinja_render(template, UndefinedMode::Strict, render_context(c, this_model, target, is_inc),
        render_answers(c, env_vars, is_inc))
}

fn context_key_list(c: &Vec<(String, ContextValue)>) -> (r: Vec<String>)
    ensures
        views(r@) == context_keys(context_views(c@)),
{
    let mut r: Vec<String> = Vec::new();
    let mut i: usize = 0;
    while i < c.len()
        invariant
            i <= c.len(),
            views(r@) == context_keys(context_views(c@)).take(i as int),
        decreases c.len() - i,
    {
        let ghost before = r@;
        r.push(c[i].0.clone());
        assert(views(r@) =~= context_keys(context_views(c@)).take(i as int + 1)) by {
            assert(views(r@) =~= views(before).push(c@[i as int].0@));
        }
        i = i + 1;
    }
    assert(context_keys(context_views(c@)).take(c.len() as int) =~= context_keys(context_views(c@)));
    r
}

fn is_render_name_text(k: &str) -> (r: bool)
    ensures
        r == is_render_name(k@),
{
    str_eq(k, "this") || str_eq(k, "target") || str_eq(k, "is_incremental_val")
}

/// Builds `render_context`.
fn build_render_context(c: &Vec<(String, ContextValue)>, this_model: &str, target_name: &str, is_inc: bool)
    -> (r: Vec<(String, ContextValue)>)
    ensures
        context_views(r@) == render_context(context_views(c@), this_model@, target_name@, is_inc),
{
    let ghost cv = context_views(c@);
    let keys = context_key_list(c);
    let mut r: Vec<(String, ContextValue)> = Vec::new();
    let mut this_rec: Vec<(String, TemplateScalar)> = Vec::new();
    this_rec.push((to_owned_string("name"), TemplateScalar::Text(to_owned_string(this_model))));
    let mut target_rec: Vec<(String, TemplateScalar)> = Vec::new();
    target_rec.push((to_owned_string("name"), TemplateScalar::Text(to_owned_string(target_name))));
    proof { reveal_strlit("name"); }
    assert(scalar_pairs(this_rec@) =~= seq![("name"@, ScalarView::Text(this_model@))]);
    assert(scalar_pairs(target_rec@) =~= seq![("name"@, ScalarView::Text(target_name@))]);
    r.push((to_owned_string("this"), ContextValue::Record(this_rec)));
    r.push((to_owned_string("target"), ContextValue::Record(target_rec)));
    r.push((to_owned_string("is_incremental_val"), ContextValue::Scalar(TemplateScalar::Flag(is_inc))));
    proof {
        reveal_strlit("name");
        reveal_strlit("this");
        reveal_strlit("target");
        reveal_strlit("is_incremental_val");
    }
    let ghost head = context_views(r@);
    assert(head =~= seq![
        ("this"@, ContextView::Record(seq![("name"@, ScalarView::Text(this_model@))])),
        ("target"@, ContextView::Record(seq![("name"@, ScalarView::Text(target_name@))])),
        ("is_incremental_val"@, ContextView::Scalar(ScalarView::Flag(is_inc))),
    ]);
    let fs = vec![TemplateFunction::Ref, TemplateFunction::Source, TemplateFunction::Var, TemplateFunction::EnvVar,
        TemplateFunction::Config, TemplateFunction::IsIncremental];
    assert(fs@ =~= model_functions());
    let mut j: usize = 0;
    while j < fs.len()
        invariant
            j <= fs.len(),
            fs@ == model_functions(),
            views(keys@) == context_keys(cv),
            context_views(r@) == head + function_entries(context_keys(cv), fs@.take(j as int)),
        decreases fs.len() - j,
    {
        let f = fs[j];
        let name = function_name_text(f);
        assert(fs@.take(j as int + 1).drop_last() =~= fs@.take(j as int));
        let ghost before = context_views(r@);
        if index_of_str(&keys, name).is_none() {
            r.push((to_owned_string(name), ContextValue::Function(f)));
            assert(context_views(r@) =~= before.push((function_name(f), ContextView::Function(f))));
        } else {
            proof {
                let k = choose|k: int| 0 <= k < keys@.len() && keys@[k as int]@ == name@;
                assert(views(keys@)[k] == name@);
            }
        }
        j = j + 1;
    }
    assert(fs@.take(fs.len() as int) =~= fs@);
    let ghost mid = context_views(r@);
    let mut i: usize = 0;
    while i < c.len()
        invariant
            i <= c.len(),
            cv == context_views(c@),
            views(keys@) == context_keys(cv),
            context_views(r@) == mid + kept_values(cv, i as int),
        decreases c.len() - i,
    {
        let ghost before = context_views(r@);
        assert(cv[i as int] == (c@[i as int].0@, c@[i as int].1@));
        let last = last_index_of_str(&keys, c[i].0.as_str());
        let keep = !is_render_name_text(c[i].0.as_str()) && match last {
            Some(l) => l == i,
            None => false,
        };
        proof { lemma_last_index_of(context_keys(cv), cv[i as int].0); assert(context_keys(cv)[i as int] == cv[i as int].0); }
        if keep {
            r.push((c[i].0.clone(), c[i].1.copy()));
            assert(context_views(r@) =~= before.push(cv[i as int]));
        }
        i = i + 1;
    }
    r
}

/// Renders model templates. The process environment that `env_var` reads
/// is taken once, when the engine is made.
pub struct TemplateEngine {
    env_vars: Vec<(String, String)>,
}

impl TemplateEngine {
    pub fn new(env_vars: Vec<(String, String)>) -> (r: Self)
        ensures
            r.environment() == pair_views(env_vars@),
    {
        TemplateEngine { env_vars }
    }

    /// The process environment the engine renders with.
    pub closed spec fn environment(&self) -> Seq<(Seq<char>, Seq<char>)> {
        pair_views(self.env_vars@)
    }

    /// Renders `template` with the caller's values `context` (among them
    /// `titan_env`, the environment that `ref` prefixes, and `vars`, the
    /// project variables), the model's name, the target's name and the run
    /// kind, strict about undefined values. A failure is a template error
    /// whose message is "Template rendering failed: " and the engine's
    /// message.
    pub fn render(&self, template: &str, context: &Vec<(String, ContextValue)>, this_model: &str,
        target_name: &str, is_inc: bool) -> (r: Result<String, TitanError>)
        ensures
            match spec_render(template@, context_views(context@), self.environment(), this_model@, target_name@,
                is_inc) {
                Ok(t) => (r matches Ok(s) && s@ == t),
                Err(m) => (r matches Err(TitanError::TemplateError(e)) && e@ == render_failure_prefix() + m),
            },
    {
        let ghost cv = context_views(context@);
        let keys = context_key_list(context);
        proof {
            lemma_last_index_of(context_keys(cv), "titan_env"@);
            lemma_last_index_of(context_keys(cv), "vars"@);
        }
        proof {
            reveal_strlit("titan_env");
            reveal_strlit("vars");
        }
        let ghost want = render_answers(cv, self.environment(), is_inc);
        let titan_env = match last_index_of_str(&keys, "titan_env") {
            Some(i) => {
                assert(cv[i as int] == (context@[i as int].0@, context@[i as int].1@));
                assert(last_context_value(cv, "titan_env"@) == Some(context@[i as int].1@));
                match &context[i].1 {
                    ContextValue::Scalar(TemplateScalar::Text(t)) => Some(t.clone()),
                    _ => Some(String::new()),
                }
            },
            None => None,
        };
        assert(match titan_env { Some(e) => Some(e@), None => None } == want.titan_env);
        let vars = match last_index_of_str(&keys, "vars") {
            Some(i) => {
                assert(cv[i as int] == (context@[i as int].0@, context@[i as int].1@));
                assert(last_context_value(cv, "vars"@) == Some(context@[i as int].1@));
                match &context[i].1 {
                    ContextValue::Record(v) => Some(copy_scalar_pairs(v)),
                    _ => {
                        let empty: Vec<(String, TemplateScalar)> = Vec::new();
                        assert(scalar_pairs(empty@) =~= Seq::<(Seq<char>, ScalarView)>::empty());
                        Some(empty)
                    },
                }
            },
            None => None,
        };
        assert(match vars { Some(v) => Some(scalar_pairs(v@)), None => None } == want.vars);
        let answers = TemplateFunctions { titan_env, vars, env_vars: copy_pairs(&self.env_vars), is_incremental: is_inc };
        assert(answers@ == want);
        let full = build_render_context(context, this_model, target_name, is_inc);
        match render_template(template, UndefinedMode::Strict, &full, &answers) {
            Ok(text) => Ok(text),
            Err(m) => {
                let mut msg = to_owned_string("Template rendering failed: ");
                msg.append(m.as_str());
                proof { reveal_strlit("Template rendering failed: "); }
                Err(TitanError::TemplateError(msg))
            },
        }
    }
}

} // verus!
