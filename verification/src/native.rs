//! Values of the stores and their JSON form.
//!
//! A blob reference is a small tree of values. It travels between nodes as JSON, and is turned
//! back into the store's own form where the blob is fetched.
use crate::binary64::Real;
use crate::config::Entry;
use crate::environment;
use crate::text;
use vstd::prelude::*;

verus! {

/// A value as the stores hold it.
#[derive(Debug)]
pub enum NativeValue {
    Null,
    Bool(bool),
    Int(i64),
    Float(Real),
    Text(String),
    List(Vec<NativeValue>),
    Dict(Vec<NativeField>),
}

#[derive(Debug)]
pub struct NativeField {
    pub key: String,
    pub value: NativeValue,
}

/// A number of a JSON text: one that fits 64 signed bits, a larger integer by its nearest binary64
/// value, or a number written with a fraction or an exponent.
#[derive(Clone, Copy, Debug, PartialEq, Eq, Structural)]
pub enum JsonNumber {
    Int(i64),
    Large(Real),
    Float(Real),
}

/// A JSON value.
#[derive(Debug)]
pub enum Json {
    Null,
    Bool(bool),
    Number(JsonNumber),
    Text(String),
    Array(Vec<Json>),
    Object(Vec<JsonField>),
}

#[derive(Debug)]
pub struct JsonField {
    pub key: String,
    pub value: Json,
}

/// A native value by views.
pub enum NativeTree {
    Null,
    Bool(bool),
    Int(i64),
    Float(Real),
    Text(Seq<char>),
    List(Seq<NativeTree>),
    Dict(Seq<(Seq<char>, NativeTree)>),
}

/// A JSON value by views.
pub enum JsonTree {
    Null,
    Bool(bool),
    Number(JsonNumber),
    Text(Seq<char>),
    Array(Seq<JsonTree>),
    Object(Seq<(Seq<char>, JsonTree)>),
}

impl NativeValue {
    pub open spec fn tree(self) -> NativeTree
        decreases self,
    {
        match self {
            NativeValue::Null => NativeTree::Null,
            NativeValue::Bool(b) => NativeTree::Bool(b),
            NativeValue::Int(n) => NativeTree::Int(n),
            NativeValue::Float(x) => NativeTree::Float(x),
            NativeValue::Text(s) => NativeTree::Text(s@),
            NativeValue::List(v) => NativeTree::List(
                Seq::new(
                    v@.len(),
                    |i: int|
                        if 0 <= i < v@.len() {
                            v@[i].tree()
                        } else {
                            NativeTree::Null
                        },
                ),
            ),
            NativeValue::Dict(v) => NativeTree::Dict(
                Seq::new(
                    v@.len(),
                    |i: int|
                        if 0 <= i < v@.len() {
                            (v@[i].key@, v@[i].value.tree())
                        } else {
                            (Seq::empty(), NativeTree::Null)
                        },
                ),
            ),
        }
    }
}

impl Json {
    pub open spec fn tree(self) -> JsonTree
        decreases self,
    {
        match self {
            Json::Null => JsonTree::Null,
            Json::Bool(b) => JsonTree::Bool(b),
            Json::Number(n) => JsonTree::Number(n),
            Json::Text(s) => JsonTree::Text(s@),
            Json::Array(v) => JsonTree::Array(
                Seq::new(
                    v@.len(),
                    |i: int|
                        if 0 <= i < v@.len() {
                            v@[i].tree()
                        } else {
                            JsonTree::Null
                        },
                ),
            ),
            Json::Object(v) => JsonTree::Object(
                Seq::new(
                    v@.len(),
                    |i: int|
                        if 0 <= i < v@.len() {
                            (v@[i].key@, v@[i].value.tree())
                        } else {
                            (Seq::empty(), JsonTree::Null)
                        },
                ),
            ),
        }
    }
}

/// A list of JSON values by views.
pub open spec fn trees(values: Seq<Json>) -> Seq<JsonTree> {
    values.map_values(|j: Json| j.tree())
}

impl Json {
    /// A copy of the value.
    pub fn duplicate(&self) -> (r: Json)
        ensures
            r.tree() == self.tree(),
        decreases self,
    {
        match self {
            Json::Null => Json::Null,
            Json::Bool(b) => Json::Bool(*b),
            Json::Number(n) => Json::Number(*n),
            Json::Text(s) => Json::Text(s.clone()),
            Json::Array(v) => {
                let mut out: Vec<Json> = Vec::new();
                let mut i: usize = 0;
                while i < v.len()
                    invariant
                        i <= v@.len(),
                        *self == Json::Array(*v),
                        out@.len() == i,
                        forall|j: int| 0 <= j < i ==> (#[trigger] out@[j]).tree() == v@[j].tree(),
                    decreases v.len() - i,
                {
                    assert(decreases_to!(self => self->Array_0));
                    assert(decreases_to!(v => v[i as int]));
                    out.push(v[i].duplicate());
                    i = i + 1;
                }
                let r = Json::Array(out);
                assert(r.tree()->Array_0 =~= self.tree()->Array_0);
                r
            },
            Json::Object(v) => {
                let mut out: Vec<JsonField> = Vec::new();
                let mut i: usize = 0;
                while i < v.len()
                    invariant
                        i <= v@.len(),
                        *self == Json::Object(*v),
                        out@.len() == i,
                        forall|j: int|
                            0 <= j < i ==> (#[trigger] out@[j]).key@ == v@[j].key@
                                && out@[j].value.tree() == v@[j].value.tree(),
                    decreases v.len() - i,
                {
                    assert(decreases_to!(self => self->Object_0));
                    assert(decreases_to!(v => v[i as int]));
                    assert(decreases_to!(v[i as int] => v[i as int].value));
                    out.push(JsonField { key: v[i].key.clone(), value: v[i].value.duplicate() });
                    i = i + 1;
                }
                let r = Json::Object(out);
                assert(r.tree()->Object_0 =~= self.tree()->Object_0);
                r
            },
        }
    }
}

/// A copy of `values[from..to]`.
pub fn copy_json(values: &Vec<Json>, from: usize, to: usize) -> (r: Vec<Json>)
    requires
        from <= to <= values@.len(),
    ensures
        trees(r@) == trees(values@).subrange(from as int, to as int),
        r@.len() == to - from,
{
    let mut out: Vec<Json> = Vec::new();
    let mut i: usize = from;
    while i < to
        invariant
            from <= i <= to <= values@.len(),
            out@.len() == i - from,
            forall|j: int|
                0 <= j < i - from ==> (#[trigger] out@[j]).tree() == values@[from + j].tree(),
        decreases to - i,
    {
        out.push(values[i].duplicate());
        i = i + 1;
    }
    assert(trees(out@) =~= trees(values@).subrange(from as int, to as int));
    out
}

/// The JSON array of a list of strings.
pub open spec fn text_array(items: Seq<Seq<char>>) -> JsonTree {
    JsonTree::Array(items.map_values(|s: Seq<char>| JsonTree::Text(s)))
}

pub fn texts_to_json(items: &Vec<String>) -> (r: Json)
    ensures
        r.tree() == text_array(text::views(items@)),
{
    let mut out: Vec<Json> = Vec::new();
    let mut i: usize = 0;
    while i < items.len()
        invariant
            i <= items@.len(),
            out@.len() == i,
            forall|j: int|
                0 <= j < i ==> (#[trigger] out@[j]).tree() == JsonTree::Text(items@[j]@),
        decreases items.len() - i,
    {
        let s = items[i].clone();
        out.push(Json::Text(s));
        i = i + 1;
    }
    let r = Json::Array(out);
    assert(r.tree()->Array_0 =~= text_array(text::views(items@))->Array_0);
    r
}

/// The JSON object of a table of strings.
pub open spec fn table_object(entries: Seq<(Seq<char>, Seq<char>)>) -> JsonTree {
    JsonTree::Object(
        entries.map_values(|e: (Seq<char>, Seq<char>)| (e.0, JsonTree::Text(e.1))),
    )
}

pub fn table_to_json(entries: &Vec<Entry>) -> (r: Json)
    ensures
        r.tree() == table_object(environment::entry_views(entries@)),
{
    let mut out: Vec<JsonField> = Vec::new();
    let mut i: usize = 0;
    while i < entries.len()
        invariant
            i <= entries@.len(),
            out@.len() == i,
            forall|j: int|
                0 <= j < i ==> (#[trigger] out@[j]).key@ == entries@[j].key@
                    && out@[j].value.tree() == JsonTree::Text(entries@[j].value@),
        decreases entries.len() - i,
    {
        let value = Json::Text(entries[i].value.clone());
        out.push(JsonField { key: entries[i].key.clone(), value });
        i = i + 1;
    }
    let r = Json::Object(out);
    assert(r.tree()->Object_0 =~= table_object(environment::entry_views(entries@))->Object_0);
    r
}

/// The JSON form of a native value. What is not a finite number has none and becomes null.
pub open spec fn to_json(value: NativeTree) -> JsonTree
    decreases value,
{
    match value {
        NativeTree::Null => JsonTree::Null,
        NativeTree::Bool(b) => JsonTree::Bool(b),
        NativeTree::Int(n) => JsonTree::Number(JsonNumber::Int(n)),
        NativeTree::Float(x) => if x.is_finite_spec() {
            JsonTree::Number(JsonNumber::Float(x))
        } else {
            JsonTree::Null
        },
        NativeTree::Text(s) => JsonTree::Text(s),
        NativeTree::List(v) => JsonTree::Array(
            Seq::new(
                v.len(),
                |i: int|
                    if 0 <= i < v.len() {
                        to_json(v[i])
                    } else {
                        JsonTree::Null
                    },
            ),
        ),
        NativeTree::Dict(v) => JsonTree::Object(
            Seq::new(
                v.len(),
                |i: int|
                    if 0 <= i < v.len() {
                        (v[i].0, to_json(v[i].1))
                    } else {
                        (Seq::empty(), JsonTree::Null)
                    },
            ),
        ),
    }
}

/// The native form of a JSON value.
pub open spec fn to_native(value: JsonTree) -> NativeTree
    decreases value,
{
    match value {
        JsonTree::Null => NativeTree::Null,
        JsonTree::Bool(b) => NativeTree::Bool(b),
        JsonTree::Number(JsonNumber::Int(n)) => NativeTree::Int(n),
        JsonTree::Number(JsonNumber::Large(x)) => NativeTree::Float(x),
        JsonTree::Number(JsonNumber::Float(x)) => NativeTree::Float(x),
        JsonTree::Text(s) => NativeTree::Text(s),
        JsonTree::Array(v) => NativeTree::List(
            Seq::new(
                v.len(),
                |i: int|
                    if 0 <= i < v.len() {
                        to_native(v[i])
                    } else {
                        NativeTree::Null
                    },
            ),
        ),
        JsonTree::Object(v) => NativeTree::Dict(
            Seq::new(
                v.len(),
                |i: int|
                    if 0 <= i < v.len() {
                        (v[i].0, to_native(v[i].1))
                    } else {
                        (Seq::empty(), NativeTree::Null)
                    },
            ),
        ),
    }
}

/// A list of native fields by views.
pub open spec fn field_trees(fields: Seq<NativeField>) -> Seq<(Seq<char>, NativeTree)> {
    Seq::new(fields.len(), |i: int| (fields[i].key@, fields[i].value.tree()))
}

pub fn native_value_to_json(value: &NativeValue) -> (r: Json)
    ensures
        r.tree() == to_json(value.tree()),
    decreases value,
{
    match value {
        NativeValue::Null => Json::Null,
        NativeValue::Bool(b) => Json::Bool(*b),
        NativeValue::Int(n) => Json::Number(JsonNumber::Int(*n)),
        NativeValue::Float(x) => if x.is_finite() {
            Json::Number(JsonNumber::Float(*x))
        } else {
            Json::Null
        },
        NativeValue::Text(s) => Json::Text(s.clone()),
        NativeValue::List(v) => {
            let mut out: Vec<Json> = Vec::new();
            let mut i: usize = 0;
            while i < v.len()
                invariant
                    i <= v@.len(),
                    *value == NativeValue::List(*v),
                    out@.len() == i,
                    forall|j: int| 0 <= j < i ==> (#[trigger] out@[j]).tree() == to_json(
                        v@[j].tree(),
                    ),
                decreases v.len() - i,
            {
                assert(decreases_to!(value => value->List_0));
                assert(decreases_to!(v => v[i as int]));
                out.push(native_value_to_json(&v[i]));
                i = i + 1;
            }
            let r = Json::Array(out);
            assert(r.tree()->Array_0 =~= to_json(value.tree())->Array_0);
            r
        },
        NativeValue::Dict(v) => {
            let mut out: Vec<JsonField> = Vec::new();
            let mut i: usize = 0;
            while i < v.len()
                invariant
                    i <= v@.len(),
                    *value == NativeValue::Dict(*v),
                    out@.len() == i,
                    forall|j: int|
                        0 <= j < i ==> (#[trigger] out@[j]).key@ == v@[j].key@
                            && out@[j].value.tree() == to_json(v@[j].value.tree()),
                decreases v.len() - i,
            {
                assert(decreases_to!(value => value->Dict_0));
                assert(decreases_to!(v => v[i as int]));
                assert(decreases_to!(v[i as int] => v[i as int].value));
                out.push(
                    JsonField { key: v[i].key.clone(), value: native_value_to_json(&v[i].value) },
                );
                i = i + 1;
            }
            let r = Json::Object(out);
            assert(r.tree()->Object_0 =~= to_json(value.tree())->Object_0);
            r
        },
    }
}

/// The JSON object of a native map.
pub fn native_map_to_json(map: Vec<NativeField>) -> (r: Json)
    ensures
        r.tree() == to_json(NativeTree::Dict(field_trees(map@))),
{
    let value = NativeValue::Dict(map);
    assert(value.tree()->Dict_0 =~= field_trees(map@));
    native_value_to_json(&value)
}

pub fn json_to_native_value(value: &Json) -> (r: NativeValue)
    ensures
        r.tree() == to_native(value.tree()),
    decreases value,
{
    match value {
        Json::Null => NativeValue::Null,
        Json::Bool(b) => NativeValue::Bool(*b),
        Json::Number(JsonNumber::Int(n)) => NativeValue::Int(*n),
        Json::Number(JsonNumber::Large(x)) => NativeValue::Float(*x),
        Json::Number(JsonNumber::Float(x)) => NativeValue::Float(*x),
        Json::Text(s) => NativeValue::Text(s.clone()),
        Json::Array(v) => {
            let mut out: Vec<NativeValue> = Vec::new();
            let mut i: usize = 0;
            while i < v.len()
                invariant
                    i <= v@.len(),
                    *value == Json::Array(*v),
                    out@.len() == i,
                    forall|j: int|
                        0 <= j < i ==> (#[trigger] out@[j]).tree() == to_native(v@[j].tree()),
                decreases v.len() - i,
            {
                assert(decreases_to!(value => value->Array_0));
                assert(decreases_to!(v => v[i as int]));
                out.push(json_to_native_value(&v[i]));
                i = i + 1;
            }
            let r = NativeValue::List(out);
            assert(r.tree()->List_0 =~= to_native(value.tree())->List_0);
            r
        },
        Json::Object(v) => {
            let mut out: Vec<NativeField> = Vec::new();
            let mut i: usize = 0;
            while i < v.len()
                invariant
                    i <= v@.len(),
                    *value == Json::Object(*v),
                    out@.len() == i,
                    forall|j: int|
                        0 <= j < i ==> (#[trigger] out@[j]).key@ == v@[j].key@
                            && out@[j].value.tree() == to_native(v@[j].value.tree()),
                decreases v.len() - i,
            {
                assert(decreases_to!(value => value->Object_0));
                assert(decreases_to!(v => v[i as int]));
                assert(decreases_to!(v[i as int] => v[i as int].value));
                out.push(
                    NativeField { key: v[i].key.clone(), value: json_to_native_value(&v[i].value) },
                );
                i = i + 1;
            }
            let r = NativeValue::Dict(out);
            assert(r.tree()->Dict_0 =~= to_native(value.tree())->Dict_0);
            r
        },
    }
}

/// The native map of a blob reference. `shown` is how the value prints, for the error.
pub fn json_to_native_map(value: &Json, shown: &str) -> (r: Result<Vec<NativeField>, String>)
    ensures
        match r {
            Ok(map) => value.tree() is Object && NativeTree::Dict(field_trees(map@)) == to_native(
                value.tree(),
            ),
            Err(e) => !(value.tree() is Object) && e@ == "expected blob ref JSON object, got "@
                + shown@,
        },
{
    match json_to_native_value(value) {
        NativeValue::Dict(map) => {
            assert(NativeValue::Dict(map).tree()->Dict_0 =~= field_trees(map@));
            Ok(map)
        },
        _ => Err(text::cat2("expected blob ref JSON object, got ", shown)),
    }
}

/// Every number of the value is finite.
pub open spec fn all_finite(value: NativeTree) -> bool
    decreases value,
{
    match value {
        NativeTree::Float(x) => x.is_finite_spec(),
        NativeTree::List(v) => forall|i: int| 0 <= i < v.len() ==> all_finite(#[trigger] v[i]),
        NativeTree::Dict(v) => forall|i: int| 0 <= i < v.len() ==> all_finite((#[trigger] v[i]).1),
        _ => true,
    }
}

/// A value with finite numbers survives the way to JSON and back.
pub proof fn lemma_json_round_trip(value: NativeTree)
    requires
        all_finite(value),
    ensures
        to_native(to_json(value)) == value,
    decreases value,
{
    match value {
        NativeTree::List(v) => {
            let back = to_native(to_json(value))->List_0;
            assert forall|i: int| 0 <= i < v.len() implies #[trigger] back[i] == v[i] by {
                lemma_json_round_trip(v[i]);
            }
            assert(back =~= v);
        },
        NativeTree::Dict(v) => {
            let back = to_native(to_json(value))->Dict_0;
            assert forall|i: int| 0 <= i < v.len() implies #[trigger] back[i] == v[i] by {
                lemma_json_round_trip(v[i].1);
            }
            assert(back =~= v);
        },
        _ => {},
    }
}

/// What each value becomes in JSON and what it becomes from there. A number that is not finite has no
/// place in JSON and becomes nothing.
pub proof fn lemma_plain_values(b: bool, n: i64, x: Real, s: Seq<char>)
    ensures
        to_json(NativeTree::Null) == JsonTree::Null && to_native(JsonTree::Null) == NativeTree::Null,
        to_json(NativeTree::Bool(b)) == JsonTree::Bool(b) && to_native(JsonTree::Bool(b))
            == NativeTree::Bool(b),
        to_json(NativeTree::Int(n)) == JsonTree::Number(JsonNumber::Int(n)),
        to_native(JsonTree::Number(JsonNumber::Int(n))) == NativeTree::Int(n),
        x.is_finite_spec() ==> to_json(NativeTree::Float(x)) == JsonTree::Number(
            JsonNumber::Float(x),
        ),
        !x.is_finite_spec() ==> to_json(NativeTree::Float(x)) == JsonTree::Null,
        to_native(JsonTree::Number(JsonNumber::Float(x))) == NativeTree::Float(x),
        to_native(JsonTree::Number(JsonNumber::Large(x))) == NativeTree::Float(x),
        to_json(NativeTree::Text(s)) == JsonTree::Text(s) && to_native(JsonTree::Text(s))
            == NativeTree::Text(s),
{
}

/// Lists and tables keep their length, their order and their keys, and each item becomes what it
/// becomes by itself.
pub proof fn lemma_items_by_themselves(
    list: Seq<NativeTree>,
    dict: Seq<(Seq<char>, NativeTree)>,
    array: Seq<JsonTree>,
    object: Seq<(Seq<char>, JsonTree)>,
    i: int,
)
    ensures
        to_json(NativeTree::List(list)) is Array && to_json(NativeTree::List(list))->Array_0.len()
            == list.len(),
        0 <= i < list.len() ==> to_json(NativeTree::List(list))->Array_0[i] == to_json(list[i]),
        to_json(NativeTree::Dict(dict)) is Object && to_json(NativeTree::Dict(dict))->Object_0.len()
            == dict.len(),
        0 <= i < dict.len() ==> to_json(NativeTree::Dict(dict))->Object_0[i] == (
            dict[i].0,
            to_json(dict[i].1),
        ),
        to_native(JsonTree::Array(array)) is List && to_native(JsonTree::Array(array))->List_0.len()
            == array.len(),
        0 <= i < array.len() ==> to_native(JsonTree::Array(array))->List_0[i] == to_native(array[i]),
        to_native(JsonTree::Object(object)) is Dict && to_native(
            JsonTree::Object(object),
        )->Dict_0.len() == object.len(),
        0 <= i < object.len() ==> to_native(JsonTree::Object(object))->Dict_0[i] == (
            object[i].0,
            to_native(object[i].1),
        ),
{
}

/// A list of texts and a table become JSON item by item.
pub proof fn lemma_texts_and_tables(
    items: Seq<Seq<char>>,
    entries: Seq<(Seq<char>, Seq<char>)>,
    i: int,
)
    ensures
        text_array(items) is Array && text_array(items)->Array_0.len() == items.len(),
        0 <= i < items.len() ==> text_array(items)->Array_0[i] == JsonTree::Text(items[i]),
        table_object(entries) is Object && table_object(entries)->Object_0.len() == entries.len(),
        0 <= i < entries.len() ==> table_object(entries)->Object_0[i] == (
            entries[i].0,
            JsonTree::Text(entries[i].1),
        ),
{
}

} // verus!
