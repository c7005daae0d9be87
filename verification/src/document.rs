use vstd::prelude::*;

verus! {

/// Declares `toml::Value`, the parse tree of the `toml` crate, so that the
/// conversion below may take it; the value stays opaque to the verifier.
#[verifier::external_type_specification]
#[verifier::external_body]
pub struct ExTomlValue(toml::Value);

/// One value of a parsed TOML document, reduced to what the manifest schema
/// reads: strings, arrays, tables. Integers, floats, booleans and datetimes
/// are kept only as [`TomlValue::Other`]: every manifest field that meets one
/// is a shape error.
#[derive(Debug, PartialEq)]
pub enum TomlValue {
    Str(String),
    Array(Vec<TomlValue>),
    Table(Vec<(String, TomlValue)>),
    Other,
}

/// The mathematical value of a [`TomlValue`].
pub enum DocView {
    Str(Seq<char>),
    Arr(Seq<DocView>),
    Table(Seq<(Seq<char>, DocView)>),
    Other,
}

impl DocView {
    pub open spec fn chars(self) -> Seq<char>
        recommends
            self is Str,
    {
        self->Str_0
    }

    pub open spec fn items(self) -> Seq<DocView>
        recommends
            self is Arr,
    {
        self->Arr_0
    }

    pub open spec fn entries(self) -> Seq<(Seq<char>, DocView)>
        recommends
            self is Table,
    {
        self->Table_0
    }
}

pub open spec fn value_view(v: TomlValue) -> DocView
    decreases v,
{
    match v {
        TomlValue::Str(s) => DocView::Str(s@),
        TomlValue::Array(vs) => DocView::Arr(values_view(vs@)),
        TomlValue::Table(es) => DocView::Table(entries_view(es@)),
        TomlValue::Other => DocView::Other,
    }
}

pub open spec fn values_view(s: Seq<TomlValue>) -> Seq<DocView>
    decreases s,
{
    if s.len() == 0 {
        Seq::empty()
    } else {
        seq![value_view(s[0])] + values_view(s.drop_first())
    }
}

pub open spec fn entries_view(s: Seq<(String, TomlValue)>) -> Seq<(Seq<char>, DocView)>
    decreases s,
{
    if s.len() == 0 {
        Seq::empty()
    } else {
        seq![(s[0].0@, value_view(s[0].1))] + entries_view(s.drop_first())
    }
}

impl View for TomlValue {
    type V = DocView;

    open spec fn view(&self) -> DocView {
        value_view(*self)
    }
}

pub proof fn lemma_values_view(s: Seq<TomlValue>)
    ensures
        values_view(s).len() == s.len(),
        forall|i: int| 0 <= i < s.len() ==> values_view(s)[i] == value_view(s[i]),
    decreases s.len(),
{
    if s.len() > 0 {
        lemma_values_view(s.drop_first());
    }
}

pub proof fn lemma_entries_view(s: Seq<(String, TomlValue)>)
    ensures
        entries_view(s).len() == s.len(),
        forall|i: int| 0 <= i < s.len() ==> entries_view(s)[i] == (s[i].0@, value_view(s[i].1)),
    decreases s.len(),
{
    if s.len() > 0 {
        lemma_entries_view(s.drop_first());
    }
}

/// The value under a key in an association list: the first entry with that
/// key, or nothing where no entry has it.
pub open spec fn lookup<V>(t: Seq<(Seq<char>, V)>, key: Seq<char>) -> Option<V>
    decreases t.len(),
{
    if t.len() == 0 {
        None
    } else if t[0].0 == key {
        Some(t[0].1)
    } else {
        lookup(t.drop_first(), key)
    }
}

pub open spec fn has_key<V>(t: Seq<(Seq<char>, V)>, key: Seq<char>) -> bool {
    lookup(t, key) is Some
}

pub proof fn lemma_lookup_at<V>(t: Seq<(Seq<char>, V)>, key: Seq<char>, i: int)
    requires
        0 <= i < t.len(),
        forall|j: int| 0 <= j < i ==> t[j].0 != key,
        t[i].0 == key,
    ensures
        lookup(t, key) == Some(t[i].1),
    decreases i,
{
    if i > 0 {
        lemma_lookup_at(t.drop_first(), key, i - 1);
    }
}

pub proof fn lemma_lookup_none<V>(t: Seq<(Seq<char>, V)>, key: Seq<char>)
    requires
        forall|j: int| 0 <= j < t.len() ==> t[j].0 != key,
    ensures
        lookup(t, key) is None,
    decreases t.len(),
{
    if t.len() > 0 {
        lemma_lookup_none(t.drop_first(), key);
    }
}

/// Find the value under a key in a table's entry list.
pub(crate) fn table_get<'a>(entries: &'a Vec<(String, TomlValue)>, key: &String) -> (r: Option<
    &'a TomlValue,
>)
    ensures
        match r {
            Some(v) => lookup(entries_view(entries@), key@) == Some(v@),
            None => lookup(entries_view(entries@), key@) is None,
        },
{
    proof {
        lemma_entries_view(entries@);
    }
    let ghost t = entries_view(entries@);
    let mut i: usize = 0;
    while i < entries.len()
        invariant
            0 <= i <= entries.len(),
            t == entries_view(entries@),
            t.len() == entries.len(),
            forall|j: int| 0 <= j < i ==> t[j].0 != key@,
            forall|j: int| 0 <= j < t.len() ==> t[j] == (entries@[j].0@, value_view(entries@[j].1)),
        decreases entries.len() - i,
    {
        if entries[i].0 == *key {
            proof {
                lemma_lookup_at(t, key@, i as int);
            }
            return Some(&entries[i].1);
        }
        i += 1;
    }
    proof {
        lemma_lookup_none(t, key@);
    }
    None
}

/// Whether the keys of a table's entry list are pairwise distinct.
pub open spec fn distinct_keys(es: Seq<(Seq<char>, DocView)>) -> bool {
    forall|i: int, j: int| 0 <= i < j < es.len() ==> es[i].0 != es[j].0
}

/// Whether every table anywhere in a document maps distinct keys.
pub open spec fn tables_unique(d: DocView) -> bool
    decreases d,
{
    match d {
        DocView::Str(_) => true,
        DocView::Arr(items) => all_tables_unique(items),
        DocView::Table(es) => distinct_keys(es) && entries_tables_unique(es),
        DocView::Other => true,
    }
}

pub open spec fn all_tables_unique(items: Seq<DocView>) -> bool
    decreases items,
{
    items.len() == 0 || (tables_unique(items[0]) && all_tables_unique(items.drop_first()))
}

pub open spec fn entries_tables_unique(es: Seq<(Seq<char>, DocView)>) -> bool
    decreases es,
{
    es.len() == 0 || (tables_unique(es[0].1) && entries_tables_unique(es.drop_first()))
}

/// Every entry value of a key-distinct table is itself key-distinct
/// throughout.
pub proof fn lemma_entries_tables_unique_index(es: Seq<(Seq<char>, DocView)>, i: int)
    requires
        entries_tables_unique(es),
        0 <= i < es.len(),
    ensures
        tables_unique(es[i].1),
    decreases i,
{
    if i > 0 {
        lemma_entries_tables_unique_index(es.drop_first(), i - 1);
    }
}

/// A value found under a key is the value of some entry with that key.
pub proof fn lemma_lookup_is_entry<V>(t: Seq<(Seq<char>, V)>, key: Seq<char>)
    requires
        lookup(t, key) is Some,
    ensures
        exists|i: int| 0 <= i < t.len() && t[i] == (key, lookup(t, key)->0),
    decreases t.len(),
{
    if t.len() > 0 {
        if t[0].0 == key {
            assert(t[0] == (key, lookup(t, key)->0));
        } else {
            lemma_lookup_is_entry(t.drop_first(), key);
            let i = choose|i: int|
                0 <= i < t.drop_first().len() && t.drop_first()[i] == (
                key,
                lookup(t.drop_first(), key)->0,
                );
            assert(t[i + 1] == (key, lookup(t, key)->0));
        }
    }
}

/// What `toml` makes of a text: the parsed document, or nothing where the
/// text is not well-formed TOML. A TOML document is a table at its root.
pub uninterp spec fn toml_document(text: Seq<char>) -> Option<DocView>;

/// Relies on `toml::from_str::<toml::Table>`: whether a text is well-formed
/// TOML, and the parsed document's contents, depend on the text alone. A
/// TOML table maps distinct keys — defining a key twice is an error the
/// parser reports — so every table of the returned document has its keys
/// pairwise distinct.
#[verifier::external_body]
pub(crate) fn parse_document(text: &str) -> (r: Result<TomlValue, String>)
    ensures
        match r {
            Ok(d) => toml_document(text@) == Some(d@) && tables_unique(d@),
            Err(_) => toml_document(text@) is None,
        },
{
    match toml::from_str::<toml::Table>(text) {
        Ok(t) => Ok(TomlValue::Table(t.into_iter().map(|(k, v)| (k, convert_value(v))).collect())),
        Err(e) => Err(e.to_string()),
    }
}

/// Relies on the variants of `toml::Value`: each is mapped to the document
/// model one arm at a time, keys and strings moved unchanged; integers,
/// floats, booleans and datetimes carry nothing the manifest schema reads.
#[verifier::external_body]
fn convert_value(v: toml::Value) -> TomlValue {
    match v {
        toml::Value::String(s) => TomlValue::Str(s),
        toml::Value::Integer(_) => TomlValue::Other,
        toml::Value::Float(_) => TomlValue::Other,
        toml::Value::Boolean(_) => TomlValue::Other,
        toml::Value::Datetime(_) => TomlValue::Other,
        toml::Value::Array(a) => TomlValue::Array(a.into_iter().map(convert_value).collect()),
        toml::Value::Table(t) => TomlValue::Table(
            t.into_iter().map(|(k, v)| (k, convert_value(v))).collect(),
        ),
    }
}

} // verus!
