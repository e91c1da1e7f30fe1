//! JSON and YAML documents as plain values.
//!
//! Manifests (`package.json`, `tsconfig.json`, `pnpm-workspace.yaml`) are
//! parsed with serde into the library's own value types, whose fields the
//! discovery and detection logic then reads.

use vstd::prelude::*;

use crate::paths::opt_view;
use crate::text::same_text;

verus! {

/// A JSON value: numbers are held as their text, objects as their entries
/// in serde_json's order (ascending by key, each key once).
#[derive(Debug)]
pub enum JsonValue {
    Null,
    Bool(bool),
    Number(String),
    Str(String),
    Array(Vec<JsonValue>),
    Object(Vec<(String, JsonValue)>),
}

/// What a JSON value holds.
pub enum JsonView {
    Null,
    Bool(bool),
    Number(Seq<char>),
    Str(Seq<char>),
    Array(Seq<JsonView>),
    Object(Seq<(Seq<char>, JsonView)>),
}

/// The view of a JSON value.
pub open spec fn json_view(v: JsonValue) -> JsonView
    decreases v, 0nat,
{
    match v {
        JsonValue::Null => JsonView::Null,
        JsonValue::Bool(b) => JsonView::Bool(b),
        JsonValue::Number(n) => JsonView::Number(n@),
        JsonValue::Str(s) => JsonView::Str(s@),
        JsonValue::Array(items) => JsonView::Array(json_views(items@)),
        JsonValue::Object(fields) => JsonView::Object(json_field_views(fields@)),
    }
}

/// The views of JSON values, in order.
pub open spec fn json_views(s: Seq<JsonValue>) -> Seq<JsonView>
    decreases s, s.len(),
{
    if s.len() == 0 {
        Seq::empty()
    } else {
        json_views(s.subrange(0, s.len() - 1)).push(json_view(s[s.len() - 1]))
    }
}

/// The views of JSON object entries, in order.
pub open spec fn json_field_views(s: Seq<(String, JsonValue)>) -> Seq<(Seq<char>, JsonView)>
    decreases s, s.len(),
{
    if s.len() == 0 {
        Seq::empty()
    } else {
        json_field_views(s.subrange(0, s.len() - 1)).push((s[s.len() - 1].0@, json_view(s[s.len() - 1].1)))
    }
}

impl View for JsonValue {
    type V = JsonView;

    open spec fn view(&self) -> JsonView {
        json_view(*self)
    }
}

/// The views of values are those of each value, in order.
pub proof fn lemma_json_views(s: Seq<JsonValue>)
    ensures
        json_views(s).len() == s.len(),
        forall|i: int| 0 <= i < s.len() ==> #[trigger] json_views(s)[i] == json_view(s[i]),
    decreases s.len(),
{
    if s.len() > 0 {
        let t = s.subrange(0, s.len() - 1);
        lemma_json_views(t);
        assert forall|i: int| 0 <= i < s.len() implies #[trigger] json_views(s)[i] == json_view(s[i]) by {
            if i < s.len() - 1 {
                assert(t[i] == s[i]);
            }
        }
    }
}

/// The views of entries are those of each entry, in order.
pub proof fn lemma_json_field_views(s: Seq<(String, JsonValue)>)
    ensures
        json_field_views(s).len() == s.len(),
        forall|i: int| 0 <= i < s.len() ==> #[trigger] json_field_views(s)[i] == (s[i].0@, json_view(s[i].1)),
    decreases s.len(),
{
    if s.len() > 0 {
        let t = s.subrange(0, s.len() - 1);
        lemma_json_field_views(t);
        assert forall|i: int| 0 <= i < s.len() implies #[trigger] json_field_views(s)[i] == (s[i].0@, json_view(s[i].1)) by {
            if i < s.len() - 1 {
                assert(t[i] == s[i]);
            }
        }
    }
}

/// The value of the first entry with key `key`.
pub open spec fn field_in(fs: Seq<(Seq<char>, JsonView)>, key: Seq<char>) -> Option<JsonView>
    decreases fs.len(),
{
    if fs.len() == 0 {
        None
    } else if fs[0].0 == key {
        Some(fs[0].1)
    } else {
        field_in(fs.drop_first(), key)
    }
}

/// The member `key` of an object (serde_json's `Value::get`); none for
/// other values.
pub open spec fn json_member(v: JsonView, key: Seq<char>) -> Option<JsonView> {
    match v {
        JsonView::Object(fs) => field_in(fs, key),
        _ => None,
    }
}

/// The text of a string value (serde_json's `Value::as_str`).
pub open spec fn json_text(v: Option<JsonView>) -> Option<Seq<char>> {
    match v {
        Some(JsonView::Str(s)) => Some(s),
        _ => None,
    }
}

/// The texts of the string items of a list, in order (other items left out).
pub open spec fn string_items(items: Seq<JsonView>) -> Seq<Seq<char>>
    decreases items.len(),
{
    if items.len() == 0 {
        Seq::empty()
    } else {
        let rest = string_items(items.drop_last());
        match items.last() {
            JsonView::Str(s) => rest.push(s),
            _ => rest,
        }
    }
}

/// The keys of object entries, in order.
pub open spec fn entry_keys(fs: Seq<(Seq<char>, JsonView)>) -> Seq<Seq<char>> {
    fs.map_values(|e: (Seq<char>, JsonView)| e.0)
}

/// The member `key` of an object, if it has one.
pub fn json_get<'a>(v: &'a JsonValue, key: &str) -> (r: Option<&'a JsonValue>)
    ensures
        match r {
            Some(x) => json_member(v@, key@) == Some(x@),
            None => json_member(v@, key@) is None,
        },
{
    match v {
        JsonValue::Object(fields) => {
            proof {
                lemma_json_field_views(fields@);
            }
            let ghost fv = json_field_views(fields@);
            assert(fv.skip(0) =~= fv);
            assert(v@ == JsonView::Object(fv));
            let mut i: usize = 0;
            while i < fields.len()
                invariant
                    i <= fields@.len(),
                    fv == json_field_views(fields@),
                    json_member(v@, key@) == field_in(fv, key@),
                    fv.len() == fields@.len(),
                    forall|k: int| 0 <= k < fields@.len() ==> #[trigger] fv[k] == (fields@[k].0@, json_view(fields@[k].1)),
                    field_in(fv, key@) == field_in(fv.skip(i as int), key@),
                decreases fields@.len() - i,
            {
                assert(fv.skip(i as int)[0] == fv[i as int]);
                assert(fv.skip(i as int).drop_first() =~= fv.skip(i + 1));
                if same_text(fields[i].0.as_str(), key) {
                    assert(fields[i as int].1@ == json_view(fields@[i as int].1));
                    return Some(&fields[i].1);
                }
                i = i + 1;
            }
            assert(fv.skip(i as int).len() == 0);
            None
        },
        _ => None,
    }
}

/// The text of a value, if it is a string.
pub fn json_as_text(v: Option<&JsonValue>) -> (r: Option<String>)
    ensures
        opt_view(r) == json_text(match v {
            Some(x) => Some(x@),
            None => None,
        }),
{
    match v {
        Some(JsonValue::Str(s)) => Some(s.clone()),
        _ => None,
    }
}

/// The texts of the string items of a list.
pub fn string_items_of(items: &Vec<JsonValue>) -> (r: Vec<String>)
    ensures
        strings_view(r@) == string_items(json_views(items@)),
{
    proof {
        lemma_json_views(items@);
    }
    let ghost iv = json_views(items@);
    let mut r: Vec<String> = Vec::new();
    let mut i: usize = 0;
    while i < items.len()
        invariant
            i <= items@.len(),
            iv == json_views(items@),
            iv.len() == items@.len(),
            forall|k: int| 0 <= k < items@.len() ==> #[trigger] iv[k] == json_view(items@[k]),
            strings_view(r@) == string_items(iv.take(i as int)),
        decreases items@.len() - i,
    {
        assert(iv.take(i + 1).drop_last() =~= iv.take(i as int));
        assert(iv.take(i + 1).last() == json_view(items@[i as int]));
        match &items[i] {
            JsonValue::Str(s) => {
                let t = s.clone();
                assert(strings_view(r@.push(t)) =~= strings_view(r@).push(t@));
                r.push(t);
            },
            _ => {},
        }
        i = i + 1;
    }
    assert(iv.take(items@.len() as int) =~= iv);
    r
}

/// The keys of an object's entries.
pub fn entry_keys_of(fields: &Vec<(String, JsonValue)>) -> (r: Vec<String>)
    ensures
        strings_view(r@) == entry_keys(json_field_views(fields@)),
{
    proof {
        lemma_json_field_views(fields@);
    }
    let ghost fv = json_field_views(fields@);
    let mut r: Vec<String> = Vec::new();
    let mut i: usize = 0;
    while i < fields.len()
        invariant
            i <= fields@.len(),
            fv == json_field_views(fields@),
            fv.len() == fields@.len(),
            forall|k: int| 0 <= k < fields@.len() ==> #[trigger] fv[k] == (fields@[k].0@, json_view(fields@[k].1)),
            strings_view(r@) == entry_keys(fv).take(i as int),
        decreases fields@.len() - i,
    {
        let t = fields[i].0.clone();
        assert(entry_keys(fv)[i as int] == t@);
        assert(strings_view(r@.push(t)) =~= strings_view(r@).push(t@));
        assert(strings_view(r@.push(t)) =~= entry_keys(fv).take(i + 1));
        r.push(t);
        i = i + 1;
    }
    assert(entry_keys(fv).take(fields@.len() as int) =~= entry_keys(fv));
    r
}

/// The texts of strings, in order.
pub open spec fn strings_view(v: Seq<String>) -> Seq<Seq<char>> {
    v.map_values(|s: String| s@)
}

/// The view of an optional value.
pub open spec fn opt_json(v: Option<&JsonValue>) -> Option<JsonView> {
    match v {
        Some(x) => Some(x@),
        None => None,
    }
}

/// The member `key` of an optional value.
pub open spec fn member_of(v: Option<JsonView>, key: Seq<char>) -> Option<JsonView> {
    match v {
        Some(x) => json_member(x, key),
        None => None,
    }
}

/// The keys of a value that is an object; none otherwise.
pub open spec fn keys_of(v: Option<JsonView>) -> Seq<Seq<char>> {
    match v {
        Some(JsonView::Object(fs)) => entry_keys(fs),
        _ => Seq::empty(),
    }
}

/// The texts of the string items of a value that is an array; none
/// otherwise.
pub open spec fn array_strings(v: Option<JsonView>) -> Seq<Seq<char>> {
    match v {
        Some(JsonView::Array(items)) => string_items(items),
        _ => Seq::empty(),
    }
}

/// The member `key` of an optional value, if it has one.
pub fn json_get_opt<'a>(v: Option<&'a JsonValue>, key: &str) -> (r: Option<&'a JsonValue>)
    ensures
        opt_json(r) == member_of(opt_json(v), key@),
{
    match v {
        Some(x) => json_get(x, key),
        None => None,
    }
}

/// The keys of a value that is an object.
pub fn keys_of_value(v: Option<&JsonValue>) -> (r: Vec<String>)
    ensures
        strings_view(r@) == keys_of(opt_json(v)),
{
    match v {
        Some(JsonValue::Object(fields)) => entry_keys_of(fields),
        _ => Vec::new(),
    }
}

/// The texts of the string items of a value that is an array.
pub fn array_strings_of(v: Option<&JsonValue>) -> (r: Vec<String>)
    ensures
        strings_view(r@) == array_strings(opt_json(v)),
{
    match v {
        Some(JsonValue::Array(items)) => string_items_of(items),
        _ => Vec::new(),
    }
}

// ---------------------------------------------------------------------------
// Parsing JSON
// ---------------------------------------------------------------------------

/// Declaration of serde_json's `Value`.
#[verifier::external_type_specification]
#[verifier::external_body]
pub struct ExSerdeJsonValue(serde_json::Value);

/// What serde_json makes of the text `text`: the value it parses to, or
/// its message for why it does not parse.
pub uninterp spec fn json_parse(text: Seq<char>) -> Result<JsonView, Seq<char>>;

/// A serde_json value as the library's, one variant per arm (numbers by
/// their text, objects by their entries in the map's order); the
/// conversion step of [`parse_json`], which calls itself on nested values.
#[verifier::external_body]
fn json_from_serde(v: &serde_json::Value) -> JsonValue {
    match v {
        serde_json::Value::Null => JsonValue::Null,
        serde_json::Value::Bool(b) => JsonValue::Bool(*b),
        serde_json::Value::Number(n) => JsonValue::Number(n.to_string()),
        serde_json::Value::String(t) => JsonValue::Str(t.clone()),
        serde_json::Value::Array(a) => JsonValue::Array(a.iter().map(json_from_serde).collect()),
        serde_json::Value::Object(o) => JsonValue::Object(o.iter().map(|(k, x)| (k.clone(), json_from_serde(x))).collect()),
    }
}

/// Parses JSON text (serde_json's `from_str` into its `Value`, converted).
///
/// Trusted: the outcome depends on the text alone and is named rather than
/// stated (JSON's grammar and serde_json's messages take pages); an error
/// is given by its message (`Error`'s `Display`).
#[verifier::external_body]
pub(crate) fn parse_json(text: &str) -> (r: Result<JsonValue, String>)
    ensures
        match r {
            Ok(v) => json_parse(text@) == Ok::<JsonView, Seq<char>>(v@),
            Err(e) => json_parse(text@) == Err::<JsonView, Seq<char>>(e@),
        },
{
    match serde_json::from_str::<serde_json::Value>(text) {
        Ok(v) => Ok(json_from_serde(&v)),
        Err(e) => Err(e.to_string()),
    }
}

// ---------------------------------------------------------------------------
// YAML
// ---------------------------------------------------------------------------

/// A YAML value: numbers are held as their text, mappings as their
/// entries in document order, tagged values with their tag.
#[derive(Debug)]
pub enum YamlValue {
    Null,
    Bool(bool),
    Number(String),
    Str(String),
    Sequence(Vec<YamlValue>),
    Mapping(Vec<(YamlValue, YamlValue)>),
    Tagged(String, Box<YamlValue>),
}

/// What a YAML value holds.
pub enum YamlView {
    Null,
    Bool(bool),
    Number(Seq<char>),
    Str(Seq<char>),
    Sequence(Seq<YamlView>),
    Mapping(Seq<(YamlView, YamlView)>),
    Tagged(Seq<char>, Box<YamlView>),
}

/// The view of a YAML value.
pub open spec fn yaml_view(v: YamlValue) -> YamlView
    decreases v, 0nat,
{
    match v {
        YamlValue::Null => YamlView::Null,
        YamlValue::Bool(b) => YamlView::Bool(b),
        YamlValue::Number(n) => YamlView::Number(n@),
        YamlValue::Str(t) => YamlView::Str(t@),
        YamlValue::Sequence(items) => YamlView::Sequence(yaml_views(items@)),
        YamlValue::Mapping(entries) => YamlView::Mapping(yaml_entry_views(entries@)),
        YamlValue::Tagged(tag, inner) => YamlView::Tagged(tag@, Box::new(yaml_view(*inner))),
    }
}

/// The views of YAML values, in order.
pub open spec fn yaml_views(s: Seq<YamlValue>) -> Seq<YamlView>
    decreases s, s.len(),
{
    if s.len() == 0 {
        Seq::empty()
    } else {
        yaml_views(s.subrange(0, s.len() - 1)).push(yaml_view(s[s.len() - 1]))
    }
}

/// The views of YAML mapping entries, in order.
pub open spec fn yaml_entry_views(s: Seq<(YamlValue, YamlValue)>) -> Seq<(YamlView, YamlView)>
    decreases s, s.len(),
{
    if s.len() == 0 {
        Seq::empty()
    } else {
        yaml_entry_views(s.subrange(0, s.len() - 1)).push(
            (yaml_view(s[s.len() - 1].0), yaml_view(s[s.len() - 1].1)),
        )
    }
}

impl View for YamlValue {
    type V = YamlView;

    open spec fn view(&self) -> YamlView {
        yaml_view(*self)
    }
}

/// The views of YAML values are those of each value, in order.
pub proof fn lemma_yaml_views(s: Seq<YamlValue>)
    ensures
        yaml_views(s).len() == s.len(),
        forall|i: int| 0 <= i < s.len() ==> #[trigger] yaml_views(s)[i] == yaml_view(s[i]),
    decreases s.len(),
{
    if s.len() > 0 {
        let t = s.subrange(0, s.len() - 1);
        lemma_yaml_views(t);
        assert forall|i: int| 0 <= i < s.len() implies #[trigger] yaml_views(s)[i] == yaml_view(s[i]) by {
            if i < s.len() - 1 {
                assert(t[i] == s[i]);
            }
        }
    }
}

/// The views of mapping entries are those of each entry, in order.
pub proof fn lemma_yaml_entry_views(s: Seq<(YamlValue, YamlValue)>)
    ensures
        yaml_entry_views(s).len() == s.len(),
        forall|i: int|
            0 <= i < s.len() ==> #[trigger] yaml_entry_views(s)[i] == (yaml_view(s[i].0), yaml_view(s[i].1)),
    decreases s.len(),
{
    if s.len() > 0 {
        let t = s.subrange(0, s.len() - 1);
        lemma_yaml_entry_views(t);
        assert forall|i: int| 0 <= i < s.len() implies #[trigger] yaml_entry_views(s)[i] == (
            yaml_view(s[i].0),
            yaml_view(s[i].1),
        ) by {
            if i < s.len() - 1 {
                assert(t[i] == s[i]);
            }
        }
    }
}

/// A value with its tags taken off (serde_yaml's untagging, which its
/// accessors apply).
pub open spec fn yaml_untag(v: YamlView) -> YamlView
    decreases v,
{
    match v {
        YamlView::Tagged(_, inner) => yaml_untag(*inner),
        _ => v,
    }
}

/// The value of the first entry whose key is the (untagged) string `key`.
pub open spec fn entry_in(es: Seq<(YamlView, YamlView)>, key: Seq<char>) -> Option<YamlView>
    decreases es.len(),
{
    if es.len() == 0 {
        None
    } else if es[0].0 == YamlView::Str(key) {
        Some(es[0].1)
    } else {
        entry_in(es.drop_first(), key)
    }
}

/// The member `key` of a mapping (serde_yaml's `Value::get` with a string
/// index, which looks through tags); none for other values.
pub open spec fn yaml_member(v: YamlView, key: Seq<char>) -> Option<YamlView> {
    match yaml_untag(v) {
        YamlView::Mapping(es) => entry_in(es, key),
        _ => None,
    }
}

/// The texts of the (untagged) string items of a list, in order.
pub open spec fn yaml_string_items(items: Seq<YamlView>) -> Seq<Seq<char>>
    decreases items.len(),
{
    if items.len() == 0 {
        Seq::empty()
    } else {
        let rest = yaml_string_items(items.drop_last());
        match yaml_untag(items.last()) {
            YamlView::Str(t) => rest.push(t),
            _ => rest,
        }
    }
}

/// A value with its tags taken off.
pub fn untag(v: &YamlValue) -> (r: &YamlValue)
    ensures
        r@ == yaml_untag(v@),
    decreases v,
{
    match v {
        YamlValue::Tagged(_, inner) => untag(inner),
        _ => v,
    }
}

/// The member `key` of a mapping, if it has one.
pub fn yaml_get<'a>(v: &'a YamlValue, key: &str) -> (r: Option<&'a YamlValue>)
    ensures
        match r {
            Some(x) => yaml_member(v@, key@) == Some(x@),
            None => yaml_member(v@, key@) is None,
        },
{
    match untag(v) {
        YamlValue::Mapping(entries) => {
            proof {
                lemma_yaml_entry_views(entries@);
            }
            let ghost ev = yaml_entry_views(entries@);
            assert(ev.skip(0) =~= ev);
            let mut i: usize = 0;
            while i < entries.len()
                invariant
                    i <= entries@.len(),
                    ev == yaml_entry_views(entries@),
                    yaml_member(v@, key@) == entry_in(ev, key@),
                    ev.len() == entries@.len(),
                    forall|k: int|
                        0 <= k < entries@.len() ==> #[trigger] ev[k] == (yaml_view(entries@[k].0), yaml_view(entries@[k].1)),
                    entry_in(ev, key@) == entry_in(ev.skip(i as int), key@),
                decreases entries@.len() - i,
            {
                assert(ev.skip(i as int)[0] == ev[i as int]);
                assert(ev.skip(i as int).drop_first() =~= ev.skip(i + 1));
                let is_key = match &entries[i].0 {
                    YamlValue::Str(t) => same_text(t.as_str(), key),
                    _ => false,
                };
                assert(is_key == (ev[i as int].0 == YamlView::Str(key@)));
                if is_key {
                    return Some(&entries[i].1);
                }
                i = i + 1;
            }
            assert(ev.skip(i as int).len() == 0);
            None
        },
        _ => None,
    }
}

/// The texts of the string items of a list.
pub fn yaml_string_items_of(items: &Vec<YamlValue>) -> (r: Vec<String>)
    ensures
        strings_view(r@) == yaml_string_items(yaml_views(items@)),
{
    proof {
        lemma_yaml_views(items@);
    }
    let ghost iv = yaml_views(items@);
    let mut r: Vec<String> = Vec::new();
    let mut i: usize = 0;
    while i < items.len()
        invariant
            i <= items@.len(),
            iv == yaml_views(items@),
            iv.len() == items@.len(),
            forall|k: int| 0 <= k < items@.len() ==> #[trigger] iv[k] == yaml_view(items@[k]),
            strings_view(r@) == yaml_string_items(iv.take(i as int)),
        decreases items@.len() - i,
    {
        assert(iv.take(i + 1).drop_last() =~= iv.take(i as int));
        assert(iv.take(i + 1).last() == yaml_view(items@[i as int]));
        match untag(&items[i]) {
            YamlValue::Str(t) => {
                let c = t.clone();
                assert(strings_view(r@.push(c)) =~= strings_view(r@).push(c@));
                r.push(c);
            },
            _ => {},
        }
        i = i + 1;
    }
    assert(iv.take(items@.len() as int) =~= iv);
    r
}

/// Declaration of serde_yaml's `Value`.
#[verifier::external_type_specification]
#[verifier::external_body]
pub struct ExSerdeYamlValue(serde_yaml::Value);

/// What serde_yaml makes of the text `text`: the value it parses to, or its
/// message for why it does not parse.
pub uninterp spec fn yaml_parse(text: Seq<char>) -> Result<YamlView, Seq<char>>;

/// A serde_yaml value as the library's, one variant per arm (numbers by
/// their text, mappings by their entries in order, tags by their text); the
/// conversion step of [`parse_yaml`], which calls itself on nested values.
#[verifier::external_body]
fn yaml_from_serde(v: &serde_yaml::Value) -> YamlValue {
    match v {
        serde_yaml::Value::Null => YamlValue::Null,
        serde_yaml::Value::Bool(b) => YamlValue::Bool(*b),
        serde_yaml::Value::Number(n) => YamlValue::Number(n.to_string()),
        serde_yaml::Value::String(t) => YamlValue::Str(t.clone()),
        serde_yaml::Value::Sequence(a) => YamlValue::Sequence(a.iter().map(yaml_from_serde).collect()),
        serde_yaml::Value::Mapping(m) => YamlValue::Mapping(m.iter().map(|(k, x)| (yaml_from_serde(k), yaml_from_serde(x))).collect()),
        serde_yaml::Value::Tagged(t) => YamlValue::Tagged(t.tag.to_string(), Box::new(yaml_from_serde(&t.value))),
    }
}

/// Parses YAML text (serde_yaml's `from_str` into its `Value`, converted).
///
/// Trusted: the outcome depends on the text alone and is named rather than
/// stated (YAML's grammar and serde_yaml's messages take pages); an error
/// is given by its message (`Error`'s `Display`).
#[verifier::external_body]
pub(crate) fn parse_yaml(text: &str) -> (r: Result<YamlValue, String>)
    ensures
        match r {
            Ok(v) => yaml_parse(text@) == Ok::<YamlView, Seq<char>>(v@),
            Err(e) => yaml_parse(text@) == Err::<YamlView, Seq<char>>(e@),
        },
{
    match serde_yaml::from_str::<serde_yaml::Value>(text) {
        Ok(v) => Ok(yaml_from_serde(&v)),
        Err(e) => Err(e.to_string()),
    }
}

} // verus!
