//! Comment- and formatting-preserving point edits to `config.toml`: one key
//! is set at a time through `toml_edit`, never by re-serialising the whole
//! configuration, so the user's comments and layout survive.

use vstd::prelude::*;
use crate::config::{
    field_key, field_profile, field_section, field_value, is_profile_field, profile_field_key,
    ConfigField, ConfigValue, ConfigValueView,
};
use toml_edit::{Decor, DocumentMut, TomlError, Value};

verus! {

#[verifier::external_type_specification]
#[verifier::external_body]
pub struct ExDocumentMut(toml_edit::DocumentMut);

#[verifier::external_type_specification]
#[verifier::external_body]
pub struct ExTomlError(toml_edit::TomlError);

#[verifier::external_type_specification]
#[verifier::external_body]
pub struct ExDecor(toml_edit::Decor);

#[verifier::external_type_specification]
#[verifier::external_body]
pub struct ExValue(toml_edit::Value);

/// Whether `toml_edit` accepts a text as a TOML document.
pub uninterp spec fn toml_document_parses(source: Seq<char>) -> bool;

/// The document `toml_edit` parses from a text.
pub uninterp spec fn toml_parsed(source: Seq<char>) -> DocumentMut;

/// The text `toml_edit` renders a document as (`DocumentMut`'s `Display`).
pub uninterp spec fn toml_text(doc: DocumentMut) -> Seq<char>;

/// The key paths of a document at which a table (`[header]` form, not an
/// inline table) stands, each path a sequence of keys from the root.
pub uninterp spec fn toml_tables(doc: DocumentMut) -> Set<Seq<Seq<char>>>;

/// The key paths of a document at which an inline table (`{ .. }`) stands.
pub uninterp spec fn toml_inline_tables(doc: DocumentMut) -> Set<Seq<Seq<char>>>;

/// The document after its top-level `key` is replaced by an empty table.
pub uninterp spec fn toml_reset_table(doc: DocumentMut, key: Seq<char>) -> DocumentMut;

/// The document after `key`.`sub` is replaced by an empty table.
pub uninterp spec fn toml_reset_subtable(doc: DocumentMut, key: Seq<char>, sub: Seq<char>) -> DocumentMut;

/// The document after `key`.`sub`.`leaf` is replaced by an empty table.
pub uninterp spec fn toml_reset_leaf_table(
    doc: DocumentMut,
    key: Seq<char>,
    sub: Seq<char>,
    leaf: Seq<char>,
) -> DocumentMut;

/// The document after `v` is stored at `key` in the table at `section`.
pub uninterp spec fn toml_put_value(
    doc: DocumentMut,
    section: Seq<char>,
    key: Seq<char>,
    v: Value,
) -> DocumentMut;

/// The document after `v` is stored at `key` in the table at
/// `section`.`sub`.`leaf`.
pub uninterp spec fn toml_put_leaf_value(
    doc: DocumentMut,
    section: Seq<char>,
    sub: Seq<char>,
    leaf: Seq<char>,
    key: Seq<char>,
    v: Value,
) -> DocumentMut;

/// The plain values (strings, booleans, numbers, arrays, inline tables)
/// a document holds, by key path from the root: what `Item::as_value`
/// gives for the item at that path. A value carries its decor, so an
/// unchanged value keeps its spacing and trailing comment.
pub uninterp spec fn toml_value_at(doc: DocumentMut, path: Seq<Seq<char>>) -> Option<Value>;

/// What `Value::from(&str)` gives: a string value with default decor.
pub uninterp spec fn toml_string_value(s: Seq<char>) -> Value;

/// What `Value::from(bool)` gives: a boolean value with default decor.
pub uninterp spec fn toml_bool_value(b: bool) -> Value;

/// What `Value::decor` gives: a value's surrounding whitespace and
/// trailing comment.
pub uninterp spec fn toml_decor(v: Value) -> Decor;

/// The value `v` with its decor replaced by `d` (`*v.decor_mut() = d`).
pub uninterp spec fn toml_redecorated(v: Value, d: Decor) -> Value;

/// The TOML value written for a configuration value.
pub open spec fn scalar_of(v: ConfigValueView) -> Value {
    match v {
        ConfigValueView::Text(s) => toml_string_value(s),
        ConfigValueView::Flag(b) => toml_bool_value(b),
    }
}

/// The value stored for `v`: the fresh scalar, carrying `decor` when one
/// was kept from the value it replaces.
pub open spec fn decorated_value(v: ConfigValueView, decor: Option<Decor>) -> Value {
    match decor {
        Some(d) => toml_redecorated(scalar_of(v), d),
        None => scalar_of(v),
    }
}

/// The decor of the plain value at `path`, if one stands there.
pub open spec fn decor_at(doc: DocumentMut, path: Seq<Seq<char>>) -> Option<Decor> {
    match toml_value_at(doc, path) {
        Some(v) => Some(toml_decor(v)),
        None => None,
    }
}

/// Whether `p` begins with `prefix`.
pub open spec fn begins_with(p: Seq<Seq<char>>, prefix: Seq<Seq<char>>) -> bool {
    prefix.len() <= p.len() && p.take(prefix.len() as int) == prefix
}

/// Every path of `tables` except those that begin with `prefix`.
pub open spec fn tables_outside(tables: Set<Seq<Seq<char>>>, prefix: Seq<Seq<char>>) -> Set<
    Seq<Seq<char>>,
> {
    tables.filter(|p: Seq<Seq<char>>| !begins_with(p, prefix))
}

/// `tables` once a table stands at `path`: unchanged when one stood there
/// already, otherwise whatever lay at or beneath `path` is replaced by an
/// empty table.
pub open spec fn with_table(tables: Set<Seq<Seq<char>>>, path: Seq<Seq<char>>) -> Set<
    Seq<Seq<char>>,
> {
    if tables.contains(path) {
        tables
    } else {
        tables_outside(tables, path).insert(path)
    }
}

/// The values of `b` are those of `a` at every path outside `prefix`.
pub open spec fn same_values_outside(a: DocumentMut, b: DocumentMut, prefix: Seq<Seq<char>>) -> bool {
    forall|p: Seq<Seq<char>>|
        !begins_with(p, prefix) ==> #[trigger] toml_value_at(b, p) == toml_value_at(a, p)
}

/// No plain value stands at or beneath `prefix` in `doc`.
pub open spec fn no_values_under(doc: DocumentMut, prefix: Seq<Seq<char>>) -> bool {
    forall|p: Seq<Seq<char>>| begins_with(p, prefix) ==> #[trigger] toml_value_at(doc, p) is None
}

/// Whether a table, header or inline, stands at `path`.
pub open spec fn table_like(doc: DocumentMut, path: Seq<Seq<char>>) -> bool {
    toml_tables(doc).contains(path) || toml_inline_tables(doc).contains(path)
}

/// The values of `b` are those of `a` at every path that neither begins
/// with `path` nor leads to it (the tables holding `path` may change, as
/// an inline table does when a key is set inside it).
pub open spec fn same_values_off(a: DocumentMut, b: DocumentMut, path: Seq<Seq<char>>) -> bool {
    forall|p: Seq<Seq<char>>|
        !begins_with(p, path) && !begins_with(path, p) ==> #[trigger] toml_value_at(b, p)
            == toml_value_at(a, p)
}

/// The table path a field's value is written in: `[<section>]`, or for an
/// S3 profile setting `[s3.profiles.<profile>]`.
pub open spec fn field_table(f: ConfigField) -> Seq<Seq<char>> {
    if is_profile_field(f) {
        seq!["s3"@, "profiles"@, field_profile(f)]
    } else {
        seq![field_section(f)]
    }
}

/// The key path a field's value is written at.
pub open spec fn field_path(f: ConfigField) -> Seq<Seq<char>> {
    if is_profile_field(f) {
        field_table(f).push(profile_field_key(f))
    } else {
        field_table(f).push(field_key(f))
    }
}

/// The tables that must stand before a field's value is written, from the
/// outermost in.
pub open spec fn tables_on_the_way(f: ConfigField) -> Seq<Seq<Seq<char>>> {
    if is_profile_field(f) {
        seq![seq!["s3"@], seq!["s3"@, "profiles"@], field_table(f)]
    } else {
        seq![field_table(f)]
    }
}

/// `tables` once each table of `paths` has been made to stand, in order.
pub open spec fn with_tables(tables: Set<Seq<Seq<char>>>, paths: Seq<Seq<Seq<char>>>) -> Set<
    Seq<Seq<char>>,
>
    decreases paths.len(),
{
    if paths.len() == 0 {
        tables
    } else {
        with_tables(with_table(tables, paths[0]), paths.drop_first())
    }
}

/// Whether every table of `paths` already stands in `tables`.
pub open spec fn all_stand(tables: Set<Seq<Seq<char>>>, paths: Seq<Seq<Seq<char>>>) -> bool {
    forall|i: int| 0 <= i < paths.len() ==> tables.contains(#[trigger] paths[i])
}

/// What writing `value` at `path` makes of document `a`, giving `b`, the
/// tables `ways` (each within the one before, `path` within the last)
/// being made to stand first: a missing one, or a non-table item in its
/// place, becomes an empty table; the key then holds the value, keeping
/// the decor of a value that stood there when every table on the way
/// already stood; no value outside the first table on the way changes,
/// and when every table on the way already stood, no value but the
/// edited one changes.
pub open spec fn edit_at(
    a: DocumentMut,
    b: DocumentMut,
    ways: Seq<Seq<Seq<char>>>,
    path: Seq<Seq<char>>,
    value: ConfigValueView,
) -> bool {
    let kept = all_stand(toml_tables(a), ways);
    &&& toml_tables(b) == tables_outside(with_tables(toml_tables(a), ways), path)
    &&& toml_value_at(b, path) == Some(
        decorated_value(
            value,
            if kept {
                decor_at(a, path)
            } else {
                None
            },
        ),
    )
    &&& same_values_outside(a, b, ways[0])
    &&& kept ==> same_values_outside(a, b, path)
}

/// What a point edit of `field` makes of document `a`, giving `b`: its
/// value is written at its key path inside its table (see [`edit_at`]).
pub open spec fn point_edit(a: DocumentMut, b: DocumentMut, field: ConfigField) -> bool {
    if is_profile_field(field) {
        edit_at(a, b, tables_on_the_way(field), field_path(field), field_value(field))
    } else {
        section_edit(a, b, field_section(field), field_key(field), field_value(field))
    }
}

/// What writing `value` at `key` of the top-level `section` makes of
/// document `a`, giving `b`: a table (header or inline) standing at
/// `section` is kept, anything else there becomes an empty table; the key
/// then holds the value, keeping the decor of a value that stood there in
/// a kept table; no value outside the section changes, and in a kept
/// section no value but the edited one (and the inline table holding it).
pub open spec fn section_edit(
    a: DocumentMut,
    b: DocumentMut,
    section: Seq<char>,
    key: Seq<char>,
    value: ConfigValueView,
) -> bool {
    let path = seq![section, key];
    let kept = table_like(a, seq![section]);
    &&& toml_tables(b) == tables_outside(
        if kept {
            toml_tables(a)
        } else {
            tables_outside(toml_tables(a), seq![section]).insert(seq![section])
        },
        path,
    )
    &&& toml_value_at(b, path) == Some(
        decorated_value(
            value,
            if kept {
                decor_at(a, path)
            } else {
                None
            },
        ),
    )
    &&& same_values_off(a, b, seq![section])
    &&& kept ==> same_values_off(a, b, path)
}

/// The document a point edit of `section`.`key` makes of `d0`: the
/// section made to stand, then the value stored with the kept decor.
pub open spec fn section_patched(
    d0: DocumentMut,
    section: Seq<char>,
    key: Seq<char>,
    value: ConfigValueView,
) -> DocumentMut {
    let d1 = if table_like(d0, seq![section]) {
        d0
    } else {
        toml_reset_table(d0, section)
    };
    toml_put_value(d1, section, key, decorated_value(value, decor_at(d1, seq![section, key])))
}

/// The document an edit of S3 profile `profile`'s `key` makes of `d0`: the
/// tables `[s3]`, `[s3.profiles]` and `[s3.profiles.<profile>]` made to
/// stand in turn, then the value stored with the kept decor.
pub open spec fn profile_patched(
    d0: DocumentMut,
    profile: Seq<char>,
    key: Seq<char>,
    value: ConfigValueView,
) -> DocumentMut {
    let d1 = if toml_tables(d0).contains(seq!["s3"@]) {
        d0
    } else {
        toml_reset_table(d0, "s3"@)
    };
    let d2 = if toml_tables(d1).contains(seq!["s3"@, "profiles"@]) {
        d1
    } else {
        toml_reset_subtable(d1, "s3"@, "profiles"@)
    };
    let d3 = if toml_tables(d2).contains(seq!["s3"@, "profiles"@, profile]) {
        d2
    } else {
        toml_reset_leaf_table(d2, "s3"@, "profiles"@, profile)
    };
    toml_put_leaf_value(
        d3,
        "s3"@,
        "profiles"@,
        profile,
        key,
        decorated_value(value, decor_at(d3, seq!["s3"@, "profiles"@, profile, key])),
    )
}

/// The document a point edit of `field` makes of `d0`.
pub open spec fn patched_document(d0: DocumentMut, field: ConfigField) -> DocumentMut {
    if is_profile_field(field) {
        profile_patched(d0, field_profile(field), profile_field_key(field), field_value(field))
    } else {
        section_patched(d0, field_section(field), field_key(field), field_value(field))
    }
}

/// Values kept off a key path are kept off its section.
proof fn lemma_off_widen(
    a: DocumentMut,
    b: DocumentMut,
    section: Seq<char>,
    key: Seq<char>,
)
    requires
        same_values_off(a, b, seq![section, key]),
    ensures
        same_values_off(a, b, seq![section]),
{
    let path = seq![section, key];
    let sec = seq![section];
    assert(path.take(1) =~= sec);
    assert forall|p: Seq<Seq<char>>| !begins_with(p, sec) && !begins_with(sec, p) implies #[trigger] toml_value_at(b, p)
        == toml_value_at(a, p) by {
        if begins_with(p, path) {
            lemma_begins_with_trans(p, path, sec);
        }
        if begins_with(path, p) {
            if p.len() <= 1 {
                assert(sec.take(p.len() as int) =~= path.take(p.len() as int));
            } else {
                assert(p =~= path);
                assert(p.take(1) =~= sec);
            }
        }
    }
}

/// A path beginning with `q`, which begins with `r`, begins with `r`.
proof fn lemma_begins_with_trans(p: Seq<Seq<char>>, q: Seq<Seq<char>>, r: Seq<Seq<char>>)
    requires
        begins_with(p, q),
        begins_with(q, r),
    ensures
        begins_with(p, r),
{
    assert(p.take(r.len() as int) =~= q.take(r.len() as int));
}

/// Values kept outside a longer prefix are kept outside a shorter one.
proof fn lemma_same_outside_widen(
    a: DocumentMut,
    b: DocumentMut,
    inner: Seq<Seq<char>>,
    outer: Seq<Seq<char>>,
)
    requires
        same_values_outside(a, b, inner),
        begins_with(inner, outer),
    ensures
        same_values_outside(a, b, outer),
{
    assert forall|p: Seq<Seq<char>>| !begins_with(p, outer) implies #[trigger] toml_value_at(b, p)
        == toml_value_at(a, p) by {
        if begins_with(p, inner) {
            lemma_begins_with_trans(p, inner, outer);
        }
    }
}

/// `str::parse::<toml_edit::DocumentMut>`: succeeds exactly on the texts
/// named by [`toml_document_parses`], giving the document named by
/// [`toml_parsed`].
#[verifier::external_body]
fn parse_document(source: &str) -> (r: Result<DocumentMut, TomlError>)
    ensures
        r is Ok <==> toml_document_parses(source@),
        r matches Ok(d) ==> d == toml_parsed(source@),
{
    source.parse::<DocumentMut>()
}

/// `Table::get` on the root followed by `Item::is_table`: whether a table
/// stands at the top-level key `key`.
#[verifier::external_body]
fn has_table(doc: &DocumentMut, key: &str) -> (r: bool)
    ensures
        r == toml_tables(*doc).contains(seq![key@]),
{
    doc.get(key).is_some_and(|item| item.is_table())
}

/// `Table::get` on the root followed by `Item::is_table_like`: whether a
/// table, header or inline, stands at the top-level key `key`.
#[verifier::external_body]
fn has_table_like(doc: &DocumentMut, key: &str) -> (r: bool)
    ensures
        r == (toml_tables(*doc).contains(seq![key@]) || toml_inline_tables(*doc).contains(
            seq![key@],
        )),
{
    doc.get(key).is_some_and(|item| item.is_table_like())
}

/// `Table::remove` of the top-level `key`, then an empty `toml_edit::table()`
/// stored there: the old item and everything beneath it are gone and an
/// empty table stands at `key`; nothing else changes.
#[verifier::external_body]
fn reset_table(doc: &mut DocumentMut, key: &str)
    ensures
        toml_tables(*final(doc)) == tables_outside(toml_tables(*old(doc)), seq![key@]).insert(
            seq![key@],
        ),
        no_values_under(*final(doc), seq![key@]),
        same_values_outside(*old(doc), *final(doc), seq![key@]),
        *final(doc) == toml_reset_table(*old(doc), key@),
{
    doc.as_table_mut().remove(key);
    doc[key] = toml_edit::table();
}

/// `Item::get` of `sub` inside the table at `key`, then `Item::is_table`.
/// The table at `key` must exist: indexing a missing key panics.
#[verifier::external_body]
fn has_subtable(doc: &DocumentMut, key: &str, sub: &str) -> (r: bool)
    requires
        toml_tables(*doc).contains(seq![key@]),
    ensures
        r == toml_tables(*doc).contains(seq![key@, sub@]),
{
    doc[key].get(sub).is_some_and(|item| item.is_table())
}

/// Stores an empty `toml_edit::table()` at `sub` inside the table at `key`,
/// replacing whatever stood there; nothing else changes.
#[verifier::external_body]
fn reset_subtable(doc: &mut DocumentMut, key: &str, sub: &str)
    requires
        toml_tables(*old(doc)).contains(seq![key@]),
    ensures
        toml_tables(*final(doc)) == tables_outside(toml_tables(*old(doc)), seq![key@, sub@]).insert(
            seq![key@, sub@],
        ),
        no_values_under(*final(doc), seq![key@, sub@]),
        same_values_outside(*old(doc), *final(doc), seq![key@, sub@]),
        *final(doc) == toml_reset_subtable(*old(doc), key@, sub@),
{
    doc[key][sub] = toml_edit::table();
}

/// `Item::get` of `leaf` inside the table at `key`.`sub`, then
/// `Item::is_table`. The table at `key`.`sub` must exist.
#[verifier::external_body]
fn has_leaf_table(doc: &DocumentMut, key: &str, sub: &str, leaf: &str) -> (r: bool)
    requires
        toml_tables(*doc).contains(seq![key@, sub@]),
    ensures
        r == toml_tables(*doc).contains(seq![key@, sub@, leaf@]),
{
    doc[key][sub].get(leaf).is_some_and(|item| item.is_table())
}

/// Stores an empty `toml_edit::table()` at `leaf` inside the table at
/// `key`.`sub`, replacing whatever stood there; nothing else changes.
#[verifier::external_body]
fn reset_leaf_table(doc: &mut DocumentMut, key: &str, sub: &str, leaf: &str)
    requires
        toml_tables(*old(doc)).contains(seq![key@, sub@]),
    ensures
        toml_tables(*final(doc)) == tables_outside(
            toml_tables(*old(doc)),
            seq![key@, sub@, leaf@],
        ).insert(seq![key@, sub@, leaf@]),
        no_values_under(*final(doc), seq![key@, sub@, leaf@]),
        same_values_outside(*old(doc), *final(doc), seq![key@, sub@, leaf@]),
        *final(doc) == toml_reset_leaf_table(*old(doc), key@, sub@, leaf@),
{
    doc[key][sub][leaf] = toml_edit::table();
}

/// The decor (surrounding whitespace and trailing comment) of the value at
/// `key` in the table, header or inline, at `section`, if a plain value
/// stands there (`Item::get`, `Item::as_value`, then `Value::decor`).
#[verifier::external_body]
fn value_decor(doc: &DocumentMut, section: &str, key: &str) -> (r: Option<Decor>)
    requires
        table_like(*doc, seq![section@]),
    ensures
        r == match toml_value_at(*doc, seq![section@, key@]) {
            Some(val) => Some(toml_decor(val)),
            None => None,
        },
{
    doc[section].get(key).and_then(|item| item.as_value().map(|value| value.decor().clone()))
}

/// The decor of the value at `key` in the table at `section`.`sub`.`leaf`,
/// if a plain value stands there (`Item::as_value`, then `Value::decor`).
#[verifier::external_body]
fn leaf_value_decor(doc: &DocumentMut, section: &str, sub: &str, leaf: &str, key: &str) -> (r:
    Option<Decor>)
    requires
        toml_tables(*doc).contains(seq![section@, sub@, leaf@]),
    ensures
        r == match toml_value_at(*doc, seq![section@, sub@, leaf@, key@]) {
            Some(val) => Some(toml_decor(val)),
            None => None,
        },
{
    doc[section][sub][leaf].get(key).and_then(
        |item| item.as_value().map(|value| value.decor().clone()),
    )
}

/// `Value::from(&str)`: a string value with default decor.
#[verifier::external_body]
fn string_value(s: &str) -> (r: Value)
    ensures
        r == toml_string_value(s@),
{
    Value::from(s)
}

/// `Value::from(bool)`: a boolean value with default decor.
#[verifier::external_body]
fn bool_value(b: bool) -> (r: Value)
    ensures
        r == toml_bool_value(b),
{
    Value::from(b)
}

/// `Value::decor_mut`: the value with its decor replaced by `decor`.
#[verifier::external_body]
fn with_decor(v: Value, decor: Decor) -> (r: Value)
    ensures
        r == toml_redecorated(v, decor),
{
    let mut v = v;
    *v.decor_mut() = decor;
    v
}

/// Stores `v` at `key` in the table, header or inline, at `section`,
/// replacing what stood there (and any table beneath it) in its place, or
/// adding it after the table's last key; no other value changes but the
/// inline table holding it, if the section is one.
#[verifier::external_body]
fn put_value(doc: &mut DocumentMut, section: &str, key: &str, v: Value)
    requires
        table_like(*old(doc), seq![section@]),
    ensures
        toml_tables(*final(doc)) == tables_outside(toml_tables(*old(doc)), seq![section@, key@]),
        toml_value_at(*final(doc), seq![section@, key@]) == Some(v),
        same_values_off(*old(doc), *final(doc), seq![section@, key@]),
        *final(doc) == toml_put_value(*old(doc), section@, key@, v),
{
    doc[section][key] = toml_edit::Item::Value(v);
}

/// Stores `v` at `key` in the table at `section`.`sub`.`leaf`, replacing
/// what stood there (and any table beneath it); no other value changes.
#[verifier::external_body]
fn put_leaf_value(doc: &mut DocumentMut, section: &str, sub: &str, leaf: &str, key: &str, v: Value)
    requires
        toml_tables(*old(doc)).contains(seq![section@, sub@, leaf@]),
    ensures
        toml_tables(*final(doc)) == tables_outside(
            toml_tables(*old(doc)),
            seq![section@, sub@, leaf@, key@],
        ),
        toml_value_at(*final(doc), seq![section@, sub@, leaf@, key@]) == Some(v),
        same_values_outside(*old(doc), *final(doc), seq![section@, sub@, leaf@, key@]),
        *final(doc) == toml_put_leaf_value(*old(doc), section@, sub@, leaf@, key@, v),
{
    doc[section][sub][leaf][key] = toml_edit::Item::Value(v);
}

/// `DocumentMut`'s `Display`: the document's text, named by
/// [`toml_text`].
#[verifier::external_body]
fn render(doc: &DocumentMut) -> (r: String)
    ensures
        r@ == toml_text(*doc),
{
    doc.to_string()
}

/// Why a configuration edit was refused.
#[derive(Debug)]
pub enum ConfigPatchError {
    /// The existing text is not a TOML document.
    Parse(TomlError),
}

impl ConfigPatchError {
    /// What was being done when the edit failed, shown before the cause.
    pub fn context(&self) -> (r: &'static str)
        ensures
            self is Parse ==> r@ == "parsing config.toml"@,
    {
        proof {
            reveal_strlit("parsing config.toml");
        }
        match self {
            ConfigPatchError::Parse(_) => "parsing config.toml",
        }
    }
}

/// The value to store for `v`, keeping `decor` when the key already held a
/// value, so its spacing and trailing comment survive the edit.
fn decorated(v: &ConfigValue, decor: Option<Decor>) -> (r: Value)
    ensures
        r == decorated_value(v.view(), decor),
{
    let fresh = match v {
        ConfigValue::Text(s) => string_value(s.as_str()),
        ConfigValue::Flag(b) => bool_value(*b),
    };
    match decor {
        Some(d) => with_decor(fresh, d),
        None => fresh,
    }
}

/// Makes sure a table stands at the top-level `key`, replacing a missing
/// entry or a non-table one (such as a hand-written `theme = "dark"`) by an
/// empty table. An existing table is left untouched.
fn ensure_table(doc: &mut DocumentMut, key: &str)
    ensures
        toml_tables(*final(doc)) == with_table(toml_tables(*old(doc)), seq![key@]),
        toml_tables(*old(doc)).contains(seq![key@]) ==> *final(doc) == *old(doc),
        !toml_tables(*old(doc)).contains(seq![key@]) ==> no_values_under(*final(doc), seq![key@]),
        !toml_tables(*old(doc)).contains(seq![key@]) ==> *final(doc) == toml_reset_table(
            *old(doc),
            key@,
        ),
        same_values_outside(*old(doc), *final(doc), seq![key@]),
{
    if !has_table(doc, key) {
        reset_table(doc, key);
    }
}

/// Makes sure a table, header or inline, stands at the top-level `key`: an
/// existing one (an inline table such as `theme = { accent = "blue" }`
/// included) is left untouched; a missing entry or another value is
/// replaced by an empty table.
fn ensure_section(doc: &mut DocumentMut, key: &str)
    ensures
        table_like(*final(doc), seq![key@]),
        table_like(*old(doc), seq![key@]) ==> *final(doc) == *old(doc),
        !table_like(*old(doc), seq![key@]) ==> *final(doc) == toml_reset_table(*old(doc), key@),
        !table_like(*old(doc), seq![key@]) ==> toml_tables(*final(doc)) == tables_outside(
            toml_tables(*old(doc)),
            seq![key@],
        ).insert(seq![key@]),
        !table_like(*old(doc), seq![key@]) ==> no_values_under(*final(doc), seq![key@]),
        same_values_outside(*old(doc), *final(doc), seq![key@]),
{
    if !has_table_like(doc, key) {
        reset_table(doc, key);
    }
}

/// Makes sure a table stands at `key`.`sub` (the table at `key` standing
/// already), as [`ensure_table`] does one level down.
fn ensure_subtable(doc: &mut DocumentMut, key: &str, sub: &str)
    requires
        toml_tables(*old(doc)).contains(seq![key@]),
    ensures
        toml_tables(*final(doc)) == with_table(toml_tables(*old(doc)), seq![key@, sub@]),
        toml_tables(*old(doc)).contains(seq![key@, sub@]) ==> *final(doc) == *old(doc),
        !toml_tables(*old(doc)).contains(seq![key@, sub@]) ==> no_values_under(
            *final(doc),
            seq![key@, sub@],
        ),
        same_values_outside(*old(doc), *final(doc), seq![key@, sub@]),
        !toml_tables(*old(doc)).contains(seq![key@, sub@]) ==> *final(doc) == toml_reset_subtable(
            *old(doc),
            key@,
            sub@,
        ),
{
    if !has_subtable(doc, key, sub) {
        reset_subtable(doc, key, sub);
    }
}

/// Makes sure a table stands at `key`.`sub`.`leaf` (the table at
/// `key`.`sub` standing already), as [`ensure_table`] does two levels down.
fn ensure_leaf_table(doc: &mut DocumentMut, key: &str, sub: &str, leaf: &str)
    requires
        toml_tables(*old(doc)).contains(seq![key@, sub@]),
    ensures
        toml_tables(*final(doc)) == with_table(toml_tables(*old(doc)), seq![key@, sub@, leaf@]),
        toml_tables(*old(doc)).contains(seq![key@, sub@, leaf@]) ==> *final(doc) == *old(doc),
        !toml_tables(*old(doc)).contains(seq![key@, sub@, leaf@]) ==> no_values_under(
            *final(doc),
            seq![key@, sub@, leaf@],
        ),
        same_values_outside(*old(doc), *final(doc), seq![key@, sub@, leaf@]),
        !toml_tables(*old(doc)).contains(seq![key@, sub@, leaf@]) ==> *final(doc)
            == toml_reset_leaf_table(*old(doc), key@, sub@, leaf@),
{
    if !has_leaf_table(doc, key, sub, leaf) {
        reset_leaf_table(doc, key, sub, leaf);
    }
}

/// Sets `profile_key` of the named S3 profile `profile` to `value` inside
/// `[s3.profiles.<profile>]`, creating `[s3]`, `[s3.profiles]` and the
/// profile's table as needed (each replacing a non-table item that stood
/// in its place). A value that already stood at the key keeps its decor.
fn patch_s3_profile(doc: &mut DocumentMut, profile: &str, profile_key: &str, value: &ConfigValue)
    ensures
        *final(doc) == profile_patched(*old(doc), profile@, profile_key@, value.view()),
        edit_at(
            *old(doc),
            *final(doc),
            seq![seq!["s3"@], seq!["s3"@, "profiles"@], seq!["s3"@, "profiles"@, profile@]],
            seq!["s3"@, "profiles"@, profile@, profile_key@],
            value.view(),
        ),
{
    let ghost d0 = *doc;
    let ghost w0 = seq!["s3"@];
    let ghost w1 = seq!["s3"@, "profiles"@];
    let ghost w2 = seq!["s3"@, "profiles"@, profile@];
    let ghost path = seq!["s3"@, "profiles"@, profile@, profile_key@];
    let ghost ways = seq![w0, w1, w2];
    proof {
        reveal_strlit("s3");
        reveal_strlit("profiles");
        assert(w0.take(1) =~= w0);
        assert(w1.take(1) =~= w0);
        assert(w2.take(1) =~= w0);
        assert(w2.take(2) =~= w1);
        assert(path.take(1) =~= w0);
        assert(path.take(2) =~= w1);
        assert(path.take(3) =~= w2);
        assert(begins_with(w1, w0) && begins_with(w2, w0) && begins_with(w2, w1));
        assert(begins_with(path, w0) && begins_with(path, w1) && begins_with(path, w2));
        assert(ways.drop_first() =~= seq![w1, w2]);
        assert(ways.drop_first().drop_first() =~= seq![w2]);
        assert(ways.drop_first().drop_first().drop_first() =~= Seq::<Seq<Seq<char>>>::empty());
        assert(ways[0] == w0);
    }
    ensure_table(doc, "s3");
    let ghost d1 = *doc;
    ensure_subtable(doc, "s3", "profiles");
    let ghost d2 = *doc;
    ensure_leaf_table(doc, "s3", "profiles", profile);
    let ghost d3 = *doc;
    let decor = leaf_value_decor(doc, "s3", "profiles", profile, profile_key);
    let v = decorated(value, decor);
    put_leaf_value(doc, "s3", "profiles", profile, profile_key, v);
    proof {
        let t0 = toml_tables(d0);
        let t1 = toml_tables(d1);
        let t2 = toml_tables(d2);
        let t3 = toml_tables(d3);
        assert(with_tables(t0, ways) == t3) by {
            assert(with_tables(t0, ways) == with_tables(t1, ways.drop_first()));
            assert(with_tables(t1, ways.drop_first()) == with_tables(
                t2,
                ways.drop_first().drop_first(),
            ));
            assert(with_tables(t2, ways.drop_first().drop_first()) == with_tables(
                t3,
                ways.drop_first().drop_first().drop_first(),
            ));
        }
        let kept = all_stand(t0, ways);
        if kept {
            assert(t0.contains(ways[0]) && t0.contains(ways[1]) && t0.contains(ways[2]));
            assert(d3 == d0);
        } else {
            if t2.contains(w2) {
                assert(t1.contains(w1));
                assert(t0.contains(w0));
                assert(t0.contains(ways[0]) && t0.contains(ways[1]) && t0.contains(ways[2]));
                assert(false);
            }
            assert(no_values_under(d3, w2));
            assert(toml_value_at(d3, path) is None);
        }
        lemma_same_outside_widen(d0, d1, w0, w0);
        lemma_same_outside_widen(d1, d2, w1, w0);
        lemma_same_outside_widen(d2, d3, w2, w0);
        lemma_same_outside_widen(d3, *doc, path, w0);
    }
}

/// Applies `field` to `source`, the text of a `config.toml`, and returns the
/// patched text: only the one key changes, and a value that already stood
/// there keeps its spacing and trailing comment. A missing section, or a
/// non-table item in its place, becomes a table. Fails exactly when
/// `source` is not a TOML document.
pub fn patch_config_text(source: &str, field: &ConfigField) -> (r: Result<
    String,
    ConfigPatchError,
>)
    ensures
        r is Err <==> !toml_document_parses(source@),
        r matches Err(e) ==> e is Parse,
        r matches Ok(text) ==> text@ == toml_text(patched_document(toml_parsed(source@), *field)),
        r is Ok ==> point_edit(
            toml_parsed(source@),
            patched_document(toml_parsed(source@), *field),
            *field,
        ),
{
    let mut doc = match parse_document(source) {
        Ok(d) => d,
        Err(e) => return Err(ConfigPatchError::Parse(e)),
    };
    if let Some((profile, profile_key)) = field.profile_target() {
        patch_s3_profile(&mut doc, profile.as_str(), profile_key, &field.toml_value());
        proof {
            assert(field_path(*field) =~= seq![
                "s3"@,
                "profiles"@,
                profile@,
                profile_key@,
            ]);
            assert(tables_on_the_way(*field) =~= seq![
                seq!["s3"@],
                seq!["s3"@, "profiles"@],
                seq!["s3"@, "profiles"@, profile@],
            ]);
        }
        let text = render(&doc);
        proof {
            assert(point_edit(toml_parsed(source@), doc, *field));
        }
        return Ok(text);
    }
    let section = field.section();
    let key = field.key();
    let ghost d0 = doc;
    let ghost w0 = seq![section@];
    let ghost path = seq![section@, key@];
    proof {
        assert(path.take(1) =~= w0);
        assert(begins_with(path, w0));
    }
    ensure_section(&mut doc, section);
    let ghost d1 = doc;
    let decor = value_decor(&doc, section, key);
    let v = decorated(&field.toml_value(), decor);
    put_value(&mut doc, section, key, v);
    proof {
        if !table_like(d0, w0) {
            assert(toml_value_at(d1, path) is None);
        }
        lemma_off_widen(d1, doc, section@, key@);
        assert(same_values_off(d0, d1, w0));
        assert(section_edit(d0, doc, section@, key@, field_value(*field)));
    }
    let text = render(&doc);
    Ok(text)
}

} // verus!
