//! A plain model of JSON documents, as exchanged with MCP servers and stored
//! alongside tool calls. `Json` is the executable value; `JsonValue` its view.
use vstd::prelude::*;

verus! {

/// A JSON document. Numbers are kept as their decimal text, object members
/// in their order of appearance.
#[derive(Debug, PartialEq, Eq)]
pub enum Json {
    Null,
    Bool(bool),
    Number(String),
    Str(String),
    Array(Vec<Json>),
    Object(Vec<JsonField>),
}

/// One member of a JSON object.
#[derive(Debug, PartialEq, Eq)]
pub struct JsonField {
    pub key: String,
    pub value: Json,
}

/// The mathematical view of a JSON document.
pub enum JsonValue {
    Null,
    Bool(bool),
    Number(Seq<char>),
    Str(Seq<char>),
    Array(Seq<JsonValue>),
    Object(Seq<(Seq<char>, JsonValue)>),
}

pub open spec fn view_items(items: Seq<Json>) -> Seq<JsonValue>
    decreases items,
{
    if items.len() == 0 {
        Seq::empty()
    } else {
        seq![json_view(items[0])] + view_items(items.subrange(1, items.len() as int))
    }
}

pub open spec fn view_fields(fields: Seq<JsonField>) -> Seq<(Seq<char>, JsonValue)>
    decreases fields,
{
    if fields.len() == 0 {
        Seq::empty()
    } else {
        seq![(fields[0].key@, json_view(fields[0].value))] + view_fields(
            fields.subrange(1, fields.len() as int),
        )
    }
}

/// The view of a JSON document, member by member.
pub open spec fn json_view(j: Json) -> JsonValue
    decreases j,
{
    match j {
        Json::Null => JsonValue::Null,
        Json::Bool(b) => JsonValue::Bool(b),
        Json::Number(n) => JsonValue::Number(n@),
        Json::Str(s) => JsonValue::Str(s@),
        Json::Array(items) => JsonValue::Array(view_items(items@)),
        Json::Object(fields) => JsonValue::Object(view_fields(fields@)),
    }
}

impl View for Json {
    type V = JsonValue;

    open spec fn view(&self) -> JsonValue {
        json_view(*self)
    }
}



pub proof fn lemma_view_items(items: Seq<Json>)
    ensures
        view_items(items).len() == items.len(),
        forall|i: int| 0 <= i < items.len() ==> #[trigger] view_items(items)[i] == items[i]@,
    decreases items.len(),
{
    if items.len() > 0 {
        let rest = items.subrange(1, items.len() as int);
        lemma_view_items(rest);
        assert forall|i: int| 0 <= i < items.len() implies #[trigger] view_items(items)[i]
            == items[i]@ by {
            if i > 0 {
                assert(rest[i - 1] == items[i]);
            }
        }
    }
}

pub proof fn lemma_view_fields(fields: Seq<JsonField>)
    ensures
        view_fields(fields).len() == fields.len(),
        forall|i: int|
            0 <= i < fields.len() ==> #[trigger] view_fields(fields)[i] == (
                fields[i].key@,
                fields[i].value@,
            ),
    decreases fields.len(),
{
    if fields.len() > 0 {
        let rest = fields.subrange(1, fields.len() as int);
        lemma_view_fields(rest);
        assert forall|i: int| 0 <= i < fields.len() implies #[trigger] view_fields(fields)[i] == (
            fields[i].key@,
            fields[i].value@,
        ) by {
            if i > 0 {
                assert(rest[i - 1] == fields[i]);
            }
        }
    }
}

/// The first member named `key` among `fields`, if any.
pub open spec fn lookup(fields: Seq<(Seq<char>, JsonValue)>, key: Seq<char>) -> Option<JsonValue>
    decreases fields.len(),
{
    if fields.len() == 0 {
        None
    } else if fields[0].0 == key {
        Some(fields[0].1)
    } else {
        lookup(fields.subrange(1, fields.len() as int), key)
    }
}

proof fn lemma_lookup_found(fields: Seq<(Seq<char>, JsonValue)>, key: Seq<char>, i: int)
    requires
        0 <= i < fields.len(),
        fields[i].0 == key,
        forall|j: int| 0 <= j < i ==> fields[j].0 != key,
    ensures
        lookup(fields, key) == Some(fields[i].1),
    decreases i,
{
    if i > 0 {
        let rest = fields.subrange(1, fields.len() as int);
        assert(fields[0].0 != key);
        assert forall|j: int| 0 <= j < i - 1 implies rest[j].0 != key by {
            assert(rest[j] == fields[j + 1]);
        }
        lemma_lookup_found(rest, key, i - 1);
    }
}

proof fn lemma_lookup_absent(fields: Seq<(Seq<char>, JsonValue)>, key: Seq<char>)
    requires
        forall|j: int| 0 <= j < fields.len() ==> fields[j].0 != key,
    ensures
        lookup(fields, key) is None,
    decreases fields.len(),
{
    if fields.len() > 0 {
        let rest = fields.subrange(1, fields.len() as int);
        assert(fields[0].0 != key);
        assert forall|j: int| 0 <= j < rest.len() implies rest[j].0 != key by {
            assert(rest[j] == fields[j + 1]);
        }
        lemma_lookup_absent(rest, key);
    }
}

impl JsonValue {
    /// `value[key]` as serde_json reads it: the member named `key` when `self` is an
    /// object that has one, `Null` otherwise.
    pub open spec fn member(self, key: Seq<char>) -> JsonValue {
        match self {
            JsonValue::Object(fields) => match lookup(fields, key) {
                Some(v) => v,
                None => JsonValue::Null,
            },
            _ => JsonValue::Null,
        }
    }

    /// `self` is an object with a member named `key` (`Value::get` finds it).
    pub open spec fn has_member(self, key: Seq<char>) -> bool {
        match self {
            JsonValue::Object(fields) => lookup(fields, key) is Some,
            _ => false,
        }
    }

    /// The text of a JSON string, `None` for any other kind of value.
    pub open spec fn as_str(self) -> Option<Seq<char>> {
        match self {
            JsonValue::Str(s) => Some(s),
            _ => None,
        }
    }

    /// The items of a JSON array, `None` for any other kind of value.
    pub open spec fn as_array(self) -> Option<Seq<JsonValue>> {
        match self {
            JsonValue::Array(items) => Some(items),
            _ => None,
        }
    }
}

/// Builds a JSON string value.
pub fn json_str(s: &str) -> (r: Json)
    ensures
        r@ == JsonValue::Str(s@),
{
    Json::Str(s.to_owned())
}

/// Builds an object member.
pub fn field(key: &str, value: Json) -> (r: JsonField)
    ensures
        r.key@ == key@,
        r.value == value,
{
    JsonField { key: key.to_owned(), value }
}

impl Json {
    /// `Value::get(key)`: the member named `key` when `self` is an object that has one.
    /// `None` is where `self[key]` reads `Null`.
    pub fn get(&self, key: &str) -> (r: Option<&Json>)
        ensures
            r matches Some(j) ==> j@ == self@.member(key@),
            r is None ==> self@.member(key@) == JsonValue::Null,
            r is Some <==> self@.has_member(key@),
    {
        match self {
            Json::Object(fields) => {
                proof {
                    lemma_view_fields(fields@);
                }
                let ghost vf = view_fields(fields@);
                let k = key.to_owned();
                let mut i: usize = 0;
                while i < fields.len()
                    invariant
                        0 <= i <= fields.len(),
                        *self == Json::Object(*fields),
                        k@ == key@,
                        vf == view_fields(fields@),
                        vf.len() == fields@.len(),
                        forall|m: int|
                            0 <= m < fields@.len() ==> #[trigger] vf[m] == (
                                fields@[m].key@,
                                fields@[m].value@,
                            ),
                        forall|j: int| 0 <= j < i ==> vf[j].0 != key@,
                    decreases fields.len() - i,
                {
                    if fields[i].key == k {
                        proof {
                            assert(vf[i as int] == (fields@[i as int].key@, fields@[i as int].value@));
                            lemma_lookup_found(vf, key@, i as int);
                            assert(self@ == JsonValue::Object(vf));
                        }
                        return Some(&fields[i].value);
                    }
                    i = i + 1;
                }
                proof {
                    lemma_lookup_absent(vf, key@);
                }
                None
            },
            _ => None,
        }
    }

    /// The text of a JSON string (`Value::as_str`).
    pub fn as_str(&self) -> (r: Option<&String>)
        ensures
            r matches Some(s) ==> self@.as_str() == Some(s@),
            r is None ==> self@.as_str() is None,
    {
        match self {
            Json::Str(s) => Some(s),
            _ => None,
        }
    }

    /// The items of a JSON array (`Value::as_array`).
    pub fn as_array(&self) -> (r: Option<&Vec<Json>>)
        ensures
            r matches Some(items) ==> self@.as_array() == Some(view_items(items@)),
            r is None ==> self@.as_array() is None,
    {
        match self {
            Json::Array(items) => Some(items),
            _ => None,
        }
    }

    /// A deep copy with the same view.
    pub fn duplicate(&self) -> (r: Json)
        ensures
            r@ == self@,
        decreases self,
    {
        match self {
            Json::Null => Json::Null,
            Json::Bool(b) => Json::Bool(*b),
            Json::Number(n) => Json::Number(n.clone()),
            Json::Str(s) => Json::Str(s.clone()),
            Json::Array(items) => {
                let mut out: Vec<Json> = Vec::new();
                let mut i: usize = 0;
                while i < items.len()
                    invariant
                        0 <= i <= items.len(),
                        *self == Json::Array(*items),
                        out@.len() == i,
                        forall|j: int| 0 <= j < i ==> #[trigger] out@[j]@ == items@[j]@,
                    decreases items.len() - i,
                {
                    proof {
                        assert(decreases_to!(*self => (*self)->Array_0));
                        assert(decreases_to!((*self)->Array_0 => items@));
                        assert(decreases_to!(items@ => items@[i as int]));
                    }
                    let c = items[i].duplicate();
                    out.push(c);
                    i = i + 1;
                }
                proof {
                    lemma_view_items(items@);
                    lemma_view_items(out@);
                    assert(view_items(out@) =~= view_items(items@));
                }
                Json::Array(out)
            },
            Json::Object(fields) => {
                let mut out: Vec<JsonField> = Vec::new();
                let mut i: usize = 0;
                while i < fields.len()
                    invariant
                        0 <= i <= fields.len(),
                        *self == Json::Object(*fields),
                        out@.len() == i,
                        forall|j: int|
                            0 <= j < i ==> #[trigger] out@[j].key@ == fields@[j].key@
                                && out@[j].value@ == fields@[j].value@,
                    decreases fields.len() - i,
                {
                    proof {
                        assert(decreases_to!(*self => (*self)->Object_0));
                        assert(decreases_to!((*self)->Object_0 => fields@));
                        assert(decreases_to!(fields@ => fields@[i as int]));
                        assert(decreases_to!(fields@[i as int] => fields@[i as int].value));
                    }
                    let v = fields[i].value.duplicate();
                    out.push(JsonField { key: fields[i].key.clone(), value: v });
                    i = i + 1;
                }
                proof {
                    lemma_view_fields(fields@);
                    lemma_view_fields(out@);
                    assert(view_fields(out@) =~= view_fields(fields@));
                }
                Json::Object(out)
            },
        }
    }
}

impl Clone for Json {
    fn clone(&self) -> (r: Json)
        ensures
            r@ == self@,
    {
        self.duplicate()
    }
}

impl Clone for JsonField {
    fn clone(&self) -> (r: JsonField)
        ensures
            r.key@ == self.key@,
            r.value@ == self.value@,
    {
        JsonField { key: self.key.clone(), value: self.value.duplicate() }
    }
}

} // verus!
