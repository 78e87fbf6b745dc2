//! TOML documents as plain values: the tree `toml` parses, converted one for
//! one into a type the verified code can read.

use vstd::prelude::*;

verus! {

/// `toml::Value`, carried opaquely through the conversion below.
#[verifier::external_type_specification]
#[verifier::external_body]
pub struct ExTomlValue(toml::Value);

/// One TOML value. Floats and datetimes keep the text `toml` displays them
/// as; nothing here reads them. A table keeps `toml`'s key order.
#[derive(Debug)]
pub enum TomlValue {
    Str(String),
    Int(i64),
    Float(String),
    Bool(bool),
    Datetime(String),
    Array(Vec<TomlValue>),
    Table(Vec<(String, TomlValue)>),
}

/// What `toml` parses a document's text into: its top-level table's entries
/// in `toml`'s order, or the text of the parse error.
pub uninterp spec fn toml_document(text: Seq<char>) -> Result<Seq<(String, TomlValue)>, Seq<char>>;

/// Converts one parsed `toml::Value` into a [`TomlValue`], variant for
/// variant. No claim is made of it on its own: [`parse_toml`], whose body
/// calls it, states what the whole conversion gives.
#[verifier::external_body]
fn toml_tree(value: &toml::Value) -> TomlValue {
    match value {
        toml::Value::String(s) => TomlValue::Str(s.clone()),
        toml::Value::Integer(i) => TomlValue::Int(*i),
        toml::Value::Float(x) => TomlValue::Float(x.to_string()),
        toml::Value::Boolean(b) => TomlValue::Bool(*b),
        toml::Value::Datetime(d) => TomlValue::Datetime(d.to_string()),
        toml::Value::Array(a) => TomlValue::Array(a.iter().map(toml_tree).collect()),
        toml::Value::Table(t) => TomlValue::Table(
            t.iter().map(|(k, v)| (k.clone(), toml_tree(v))).collect(),
        ),
    }
}

/// `toml::Table::from_str`: parses a TOML document. Claims that the result
/// is a function of the text alone, named [`toml_document`]: the entries of
/// the parsed top-level table, converted one for one, or the parse error's
/// display text. The TOML grammar itself is `toml`'s and is not restated.
#[verifier::external_body]
pub(crate) fn parse_toml(text: &str) -> (r: Result<Vec<(String, TomlValue)>, String>)
    ensures
        match r {
            Ok(t) => toml_document(text@) == Ok::<Seq<(String, TomlValue)>, Seq<char>>(t@),
            Err(e) => toml_document(text@) == Err::<Seq<(String, TomlValue)>, Seq<char>>(e@),
        },
{
    match text.parse::<toml::Table>() {
        Ok(table) => Ok(table.iter().map(|(k, v)| (k.clone(), toml_tree(v))).collect()),
        Err(e) => Err(e.to_string()),
    }
}

/// The value under `key` in a table's entries: the first entry with that
/// key (a parsed table has one per key).
pub open spec fn table_get(entries: Seq<(String, TomlValue)>, key: Seq<char>) -> Option<TomlValue>
    decreases entries.len(),
{
    if entries.len() == 0 {
        None
    } else if entries[0].0@ == key {
        Some(entries[0].1)
    } else {
        table_get(entries.drop_first(), key)
    }
}

/// The value under `key`.
pub fn toml_get<'a>(entries: &'a Vec<(String, TomlValue)>, key: &str) -> (r: Option<&'a TomlValue>)
    ensures
        match r {
            Some(v) => table_get(entries@, key@) == Some(*v),
            None => table_get(entries@, key@) is None,
        },
{
    let mut i: usize = 0;
    assert(entries@.skip(0) =~= entries@);
    while i < entries.len()
        invariant
            i <= entries.len(),
            table_get(entries@, key@) == table_get(entries@.skip(i as int), key@),
        decreases entries.len() - i,
    {
        assert(entries@.skip(i as int)[0] == entries@[i as int]);
        assert(entries@.skip(i as int).drop_first() =~= entries@.skip(i + 1));
        if crate::text::str_eq(entries[i].0.as_str(), key) {
            return Some(&entries[i].1);
        }
        i = i + 1;
    }
    assert(entries@.skip(i as int) =~= Seq::<(String, TomlValue)>::empty());
    None
}


/// Every entry, at any depth, whose value is a table carrying a string
/// `git` key: its key and that table, walking tables depth first in key
/// order and not descending into a matched table.
pub open spec fn git_deps(es: Seq<(String, TomlValue)>) -> Seq<(String, Vec<(String, TomlValue)>)>
    decreases es,
{
    if es.len() == 0 {
        seq![]
    } else {
        let rest = git_deps(es.drop_last());
        let (key, value) = es.last();
        match value {
            TomlValue::Table(inner) => if table_get(inner@, "git"@) matches Some(TomlValue::Str(_)) {
                rest.push((key, inner))
            } else {
                proof {
                    assert(decreases_to!(es => es[es.len() - 1]));
                }
                rest + git_deps(inner@)
            },
            _ => rest,
        }
    }
}


/// The views of collected dependency tables.
pub open spec fn deps_view<'a>(v: Seq<(&'a String, &'a Vec<(String, TomlValue)>)>) -> Seq<
    (String, Vec<(String, TomlValue)>),
> {
    v.map_values(|p: (&'a String, &'a Vec<(String, TomlValue)>)| (*p.0, *p.1))
}

/// Whether an entry list has a string `git` key.
fn has_git_string(es: &Vec<(String, TomlValue)>) -> (r: bool)
    ensures
        r == (table_get(es@, "git"@) matches Some(TomlValue::Str(_))),
{
    proof {
        reveal_strlit("git");
    }
    match toml_get(es, "git") {
        Some(TomlValue::Str(_)) => true,
        _ => false,
    }
}

/// Collects `(key, table)` for every table carrying a string `git` key:
/// dependency tables, `[workspace.dependencies]` and `[patch.*]` alike.
pub fn collect_git_deps<'a>(es: &'a Vec<(String, TomlValue)>) -> (r: Vec<
    (&'a String, &'a Vec<(String, TomlValue)>),
>)
    ensures
        deps_view(r@) == git_deps(es@),
    decreases es@,
{
    let mut out: Vec<(&'a String, &'a Vec<(String, TomlValue)>)> = Vec::new();
    let mut i: usize = 0;
    while i < es.len()
        invariant
            i <= es.len(),
            deps_view(out@) == git_deps(es@.take(i as int)),
        decreases es.len() - i,
    {
        let ghost before = deps_view(out@);
        assert(es@.take(i + 1).drop_last() =~= es@.take(i as int));
        assert(es@.take(i + 1).last() == es@[i as int]);
        let (key, value) = (&es[i].0, &es[i].1);
        match value {
            TomlValue::Table(inner) => {
                if has_git_string(inner) {
                    out.push((key, inner));
                    assert(deps_view(out@) =~= before.push((*key, *inner)));
                } else {
                    proof {
                        assert(decreases_to!(es@ => es@[i as int]));
                    }
                    let nested = collect_git_deps(inner);
                    let mut k: usize = 0;
                    while k < nested.len()
                        invariant
                            k <= nested.len(),
                            deps_view(out@) == before + deps_view(nested@).take(k as int),
                        decreases nested.len() - k,
                    {
                        let ghost b2 = out@;
                        let x = nested[k];
                        out.push(x);
                        assert(deps_view(out@) =~= deps_view(b2).push((*x.0, *x.1)));
                        assert(deps_view(nested@)[k as int] == (*x.0, *x.1));
                        assert(deps_view(out@) =~= before + deps_view(nested@).take(k + 1));
                        k = k + 1;
                    }
                    assert(deps_view(nested@).take(nested.len() as int) =~= deps_view(nested@));
                }
            },
            _ => {},
        }
        i = i + 1;
    }
    assert(es@.take(es.len() as int) =~= es@);
    out
}


/// Every key, at any depth, whose value is a table declaring `workspace =
/// true` (the `{ workspace = true }` and dotted `key.workspace = true`
/// spellings parse alike), walking tables depth first in key order and not
/// descending into a matched table.
pub open spec fn inherited_keys(es: Seq<(String, TomlValue)>) -> Seq<Seq<char>>
    decreases es,
{
    if es.len() == 0 {
        seq![]
    } else {
        let rest = inherited_keys(es.drop_last());
        let (key, value) = es.last();
        match value {
            TomlValue::Table(inner) => if table_get(inner@, "workspace"@) == Some(TomlValue::Bool(true)) {
                rest.push(key@)
            } else {
                proof {
                    assert(decreases_to!(es => es[es.len() - 1]));
                }
                rest + inherited_keys(inner@)
            },
            _ => rest,
        }
    }
}

/// Whether an entry list declares `workspace = true`.
fn declares_workspace(es: &Vec<(String, TomlValue)>) -> (r: bool)
    ensures
        r == (table_get(es@, "workspace"@) == Some(TomlValue::Bool(true))),
{
    proof {
        reveal_strlit("workspace");
    }
    match toml_get(es, "workspace") {
        Some(TomlValue::Bool(b)) => *b,
        _ => false,
    }
}

/// Collects every dependency key declared `{ workspace = true }`.
pub fn collect_workspace_inherited<'a>(es: &'a Vec<(String, TomlValue)>) -> (r: Vec<&'a String>)
    ensures
        r@.map_values(|k: &'a String| k@) == inherited_keys(es@),
    decreases es@,
{
    let mut out: Vec<&'a String> = Vec::new();
    let mut i: usize = 0;
    while i < es.len()
        invariant
            i <= es.len(),
            out@.map_values(|k: &'a String| k@) == inherited_keys(es@.take(i as int)),
        decreases es.len() - i,
    {
        let ghost before = out@.map_values(|k: &'a String| k@);
        assert(es@.take(i + 1).drop_last() =~= es@.take(i as int));
        assert(es@.take(i + 1).last() == es@[i as int]);
        let (key, value) = (&es[i].0, &es[i].1);
        match value {
            TomlValue::Table(inner) => {
                if declares_workspace(inner) {
                    out.push(key);
                    assert(out@.map_values(|k: &'a String| k@) =~= before.push(key@));
                } else {
                    proof {
                        assert(decreases_to!(es@ => es@[i as int]));
                    }
                    let nested = collect_workspace_inherited(inner);
                    let mut k: usize = 0;
                    while k < nested.len()
                        invariant
                            k <= nested.len(),
                            out@.map_values(|k: &'a String| k@) == before + nested@.map_values(
                                |k: &'a String| k@,
                            ).take(k as int),
                        decreases nested.len() - k,
                    {
                        let ghost b2 = out@;
                        let x = nested[k];
                        out.push(x);
                        assert(out@.map_values(|k: &'a String| k@) =~= b2.map_values(
                            |k: &'a String| k@,
                        ).push(x@));
                        assert(out@.map_values(|k: &'a String| k@) =~= before + nested@.map_values(
                            |k: &'a String| k@,
                        ).take(k + 1));
                        k = k + 1;
                    }
                    assert(nested@.map_values(|k: &'a String| k@).take(nested.len() as int)
                        =~= nested@.map_values(|k: &'a String| k@));
                }
            },
            _ => {},
        }
        i = i + 1;
    }
    assert(es@.take(es.len() as int) =~= es@);
    out
}

} // verus!
