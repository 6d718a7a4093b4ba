//! A JSON document model for the details recorded with each operation.
use vstd::prelude::*;
use crate::text::{owned, str_eq};

verus! {

/// The mathematical value of a JSON document.
pub enum Json {
    Null,
    Bool(bool),
    UInt(u64),
    Int(i64),
    /// A number that is neither a `u64` nor an `i64`, kept as its text.
    Float(Seq<char>),
    Str(Seq<char>),
    Array(Seq<Json>),
    Object(Seq<(Seq<char>, Json)>),
}

/// A JSON document.
pub enum JsonValue {
    Null,
    Bool(bool),
    UInt(u64),
    Int(i64),
    /// A number that is neither a `u64` nor an `i64`, kept as its text.
    Float(String),
    Str(String),
    Array(Vec<JsonValue>),
    Object(Vec<(String, JsonValue)>),
}

/// The values of a sequence of documents.
pub open spec fn view_items(items: Seq<JsonValue>) -> Seq<Json>
    decreases items,
{
    if items.len() == 0 {
        Seq::empty()
    } else {
        seq![json_view(items[0])] + view_items(items.subrange(1, items.len() as int))
    }
}

/// The values of the fields of an object.
pub open spec fn view_fields(fields: Seq<(String, JsonValue)>) -> Seq<(Seq<char>, Json)>
    decreases fields,
{
    if fields.len() == 0 {
        Seq::empty()
    } else {
        seq![(fields[0].0@, json_view(fields[0].1))] + view_fields(
            fields.subrange(1, fields.len() as int),
        )
    }
}

/// The value of a document.
pub open spec fn json_view(v: JsonValue) -> Json
    decreases v,
{
    match v {
        JsonValue::Null => Json::Null,
        JsonValue::Bool(b) => Json::Bool(b),
        JsonValue::UInt(n) => Json::UInt(n),
        JsonValue::Int(n) => Json::Int(n),
        JsonValue::Float(t) => Json::Float(t@),
        JsonValue::Str(s) => Json::Str(s@),
        JsonValue::Array(items) => Json::Array(view_items(items@)),
        JsonValue::Object(fields) => Json::Object(view_fields(fields@)),
    }
}

impl View for JsonValue {
    type V = Json;

    open spec fn view(&self) -> Json {
        json_view(*self)
    }
}

/// The first field named `key` among `fields`.
pub open spec fn field_lookup(fields: Seq<(Seq<char>, Json)>, key: Seq<char>) -> Option<Json>
    decreases fields.len(),
{
    if fields.len() == 0 {
        None
    } else if fields[0].0 == key {
        Some(fields[0].1)
    } else {
        field_lookup(fields.drop_first(), key)
    }
}

/// The member `key` of an object (`Value::get`); `None` for other values.
pub open spec fn json_get(j: Json, key: Seq<char>) -> Option<Json> {
    match j {
        Json::Object(fields) => field_lookup(fields, key),
        _ => None,
    }
}

/// The text of a string member `key`, if there is one.
pub open spec fn json_get_str(j: Json, key: Seq<char>) -> Option<Seq<char>> {
    match json_get(j, key) {
        Some(Json::Str(s)) => Some(s),
        _ => None,
    }
}

/// The elements of an array member `key`, if there is one.
pub open spec fn json_get_array(j: Json, key: Seq<char>) -> Option<Seq<Json>> {
    match json_get(j, key) {
        Some(Json::Array(a)) => Some(a),
        _ => None,
    }
}

/// The member found for `key` is that of the first field named `key`.
pub proof fn lemma_field_lookup_at(fields: Seq<(Seq<char>, Json)>, key: Seq<char>, k: int)
    requires
        0 <= k < fields.len(),
        fields[k].0 == key,
        forall|i: int| 0 <= i < k ==> (#[trigger] fields[i]).0 != key,
    ensures
        field_lookup(fields, key) == Some(fields[k].1),
    decreases k,
{
    if k > 0 {
        assert forall|i: int| 0 <= i < k - 1 implies (#[trigger] fields.drop_first()[i]).0 != key by {
            assert(fields.drop_first()[i] == fields[i + 1]);
        }
        lemma_field_lookup_at(fields.drop_first(), key, k - 1);
    }
}

/// Appending a field appends its value.
pub proof fn lemma_view_fields_push(fields: Seq<(String, JsonValue)>, f: (String, JsonValue))
    ensures
        view_fields(fields.push(f)) == view_fields(fields).push((f.0@, json_view(f.1))),
    decreases fields.len(),
{
    if fields.len() == 0 {
        assert(fields.push(f).subrange(1, 1) =~= Seq::<(String, JsonValue)>::empty());
        assert(fields.push(f)[0] == f);
        assert(view_fields(Seq::<(String, JsonValue)>::empty()) == Seq::<(Seq<char>, Json)>::empty());
        assert(view_fields(fields.push(f)) =~= seq![(f.0@, json_view(f.1))]);
    } else {
        let rest = fields.subrange(1, fields.len() as int);
        assert(fields.push(f).subrange(1, fields.len() as int + 1) =~= rest.push(f));
        lemma_view_fields_push(rest, f);
        assert(view_fields(fields.push(f)) =~= view_fields(fields).push((f.0@, json_view(f.1))));
    }
}

/// Appending an element appends its value.
pub proof fn lemma_view_items_push(items: Seq<JsonValue>, x: JsonValue)
    ensures
        view_items(items.push(x)) == view_items(items).push(json_view(x)),
    decreases items.len(),
{
    if items.len() == 0 {
        assert(items.push(x).subrange(1, 1) =~= Seq::<JsonValue>::empty());
        assert(items.push(x)[0] == x);
        assert(view_items(Seq::<JsonValue>::empty()) == Seq::<Json>::empty());
        assert(view_items(items.push(x)) =~= seq![json_view(x)]);
    } else {
        let rest = items.subrange(1, items.len() as int);
        assert(items.push(x).subrange(1, items.len() as int + 1) =~= rest.push(x));
        lemma_view_items_push(rest, x);
        assert(view_items(items.push(x)) =~= view_items(items).push(json_view(x)));
    }
}

/// The length of the values is the length of the documents.
pub proof fn lemma_view_items_len(items: Seq<JsonValue>)
    ensures
        view_items(items).len() == items.len(),
        forall|i: int| 0 <= i < items.len() ==> #[trigger] view_items(items)[i] == json_view(items[i]),
    decreases items.len(),
{
    if items.len() > 0 {
        let rest = items.subrange(1, items.len() as int);
        lemma_view_items_len(rest);
        assert forall|i: int| 0 <= i < items.len() implies #[trigger] view_items(items)[i] == json_view(items[i]) by {
            if i > 0 {
                assert(view_items(items)[i] == view_items(rest)[i - 1]);
                assert(rest[i - 1] == items[i]);
            }
        }
    }
}

/// An object holding `fields`, built one field at a time.
pub struct ObjectBuilder {
    pub fields: Vec<(String, JsonValue)>,
}

impl ObjectBuilder {
    /// No fields yet.
    pub fn new() -> (b: ObjectBuilder)
        ensures
            view_fields(b.fields@) == Seq::<(Seq<char>, Json)>::empty(),
    {
        ObjectBuilder { fields: Vec::new() }
    }

    /// Adds the field `key` with `value`.
    pub fn field(&mut self, key: &str, value: JsonValue)
        ensures
            view_fields(final(self).fields@) == view_fields(old(self).fields@).push((key@, value@)),
    {
        let k = owned(key);
        proof {
            lemma_view_fields_push(self.fields@, (k, value));
        }
        self.fields.push((k, value));
    }

    /// Adds the string field `key`.
    pub fn str_field(&mut self, key: &str, value: &str)
        ensures
            view_fields(final(self).fields@) == view_fields(old(self).fields@).push(
                (key@, Json::Str(value@)),
            ),
    {
        self.field(key, JsonValue::Str(owned(value)));
    }

    /// Adds the number field `key`.
    pub fn uint_field(&mut self, key: &str, value: u64)
        ensures
            view_fields(final(self).fields@) == view_fields(old(self).fields@).push(
                (key@, Json::UInt(value)),
            ),
    {
        self.field(key, JsonValue::UInt(value));
    }

    /// Adds the boolean field `key`.
    pub fn bool_field(&mut self, key: &str, value: bool)
        ensures
            view_fields(final(self).fields@) == view_fields(old(self).fields@).push(
                (key@, Json::Bool(value)),
            ),
    {
        self.field(key, JsonValue::Bool(value));
    }

    /// The object.
    pub fn build(self) -> (v: JsonValue)
        ensures
            v@ == Json::Object(view_fields(self.fields@)),
    {
        JsonValue::Object(self.fields)
    }
}

/// An optional string: the string, or `null`.
pub open spec fn opt_str_json(s: Option<Seq<char>>) -> Json {
    match s {
        Some(t) => Json::Str(t),
        None => Json::Null,
    }
}

/// An optional string as a document: the string, or `null`.
pub fn json_opt_str(s: &Option<String>) -> (v: JsonValue)
    ensures
        v@ == opt_str_json(
            match s {
                Some(t) => Some(t@),
                None => None,
            },
        ),
{
    match s {
        Some(t) => JsonValue::Str(owned(t.as_str())),
        None => JsonValue::Null,
    }
}

/// The views of a sequence of strings as JSON strings.
pub open spec fn str_items(items: Seq<String>) -> Seq<Json> {
    items.map_values(|s: String| Json::Str(s@))
}

/// An array of strings.
pub fn json_str_array(items: &Vec<String>) -> (v: JsonValue)
    ensures
        v@ == Json::Array(str_items(items@)),
{
    let mut out: Vec<JsonValue> = Vec::new();
    let mut i: usize = 0;
    while i < items.len()
        invariant
            i <= items.len(),
            view_items(out@) == str_items(items@.subrange(0, i as int)),
        decreases items.len() - i,
    {
        let x = JsonValue::Str(owned(items[i].as_str()));
        proof {
            lemma_view_items_push(out@, x);
            assert(str_items(items@.subrange(0, i + 1)) =~= str_items(items@.subrange(0, i as int)).push(
                Json::Str(items@[i as int]@),
            ));
        }
        out.push(x);
        i = i + 1;
    }
    assert(items@.subrange(0, items.len() as int) =~= items@);
    JsonValue::Array(out)
}

impl JsonValue {
    /// The member `key` of an object (`Value::get`).
    pub fn get(&self, key: &str) -> (r: Option<&JsonValue>)
        ensures
            match r {
                Some(v) => json_get(self@, key@) == Some(v@),
                None => json_get(self@, key@) is None,
            },
    {
        match self {
            JsonValue::Object(fields) => {
                let mut i: usize = 0;
                assert(self@ == Json::Object(view_fields(fields@)));
                assert(fields@.subrange(0, fields@.len() as int) =~= fields@);
                while i < fields.len()
                    invariant
                        i <= fields.len(),
                        self@ == Json::Object(view_fields(fields@)),
                        field_lookup(view_fields(fields@), key@) == field_lookup(
                            view_fields(fields@.subrange(i as int, fields@.len() as int)),
                            key@,
                        ),
                    decreases fields.len() - i,
                {
                    let ghost rest = fields@.subrange(i as int, fields@.len() as int);
                    proof {
                        assert(rest.subrange(1, rest.len() as int) =~= fields@.subrange(
                            i + 1,
                            fields@.len() as int,
                        ));
                        assert(view_fields(rest).drop_first() =~= view_fields(
                            fields@.subrange(i + 1, fields@.len() as int),
                        ));
                        assert(rest[0] == fields@[i as int]);
                        assert(view_fields(rest)[0] == (rest[0].0@, json_view(rest[0].1)));
                    }
                    if str_eq(fields[i].0.as_str(), key) {
                        assert(field_lookup(view_fields(rest), key@) == Some(json_view(fields@[i as int].1)));
                        return Some(&fields[i].1);
                    }
                    i = i + 1;
                }
                proof {
                    assert(fields@.subrange(i as int, fields@.len() as int) =~= Seq::<
                        (String, JsonValue),
                    >::empty());
                }
                None
            },
            _ => None,
        }
    }

    /// The text of a string document (`Value::as_str`).
    pub fn as_str(&self) -> (r: Option<&str>)
        ensures
            match r {
                Some(s) => self@ == Json::Str(s@),
                None => !(self@ is Str),
            },
    {
        match self {
            JsonValue::Str(s) => Some(s.as_str()),
            _ => None,
        }
    }

    /// The elements of an array document (`Value::as_array`).
    pub fn as_array(&self) -> (r: Option<&Vec<JsonValue>>)
        ensures
            match r {
                Some(a) => self@ == Json::Array(view_items(a@)),
                None => !(self@ is Array),
            },
    {
        match self {
            JsonValue::Array(a) => Some(a),
            _ => None,
        }
    }
}

/// The string member `key` of a document, if there is one.
pub fn get_str<'a>(v: &'a JsonValue, key: &str) -> (r: Option<&'a str>)
    ensures
        match r {
            Some(s) => json_get_str(v@, key@) == Some(s@),
            None => json_get_str(v@, key@) is None,
        },
{
    match v.get(key) {
        Some(m) => m.as_str(),
        None => None,
    }
}

} // verus!
