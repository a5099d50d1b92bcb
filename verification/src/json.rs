//! JSON trees: reading them from text, writing them as compact text, and looking into them.
use vstd::prelude::*;
use vstd::string::StringExecFns;

use crate::text::{decimal, same_text, signed_decimal, signed_decimal_of};

verus! {

/// A JSON value. Numbers that are not integers keep their decimal text.
#[derive(Debug)]
pub enum Json {
    Null,
    Bool(bool),
    Uint(u64),
    Int(i64),
    Real(String),
    Text(String),
    List(Vec<Json>),
    Object(Vec<(String, Json)>),
}

/// The mathematical tree that a JSON value stands for.
pub enum JsonModel {
    Null,
    Bool(bool),
    Int(int),
    Real(Seq<char>),
    Text(Seq<char>),
    List(Seq<JsonModel>),
    Object(Seq<(Seq<char>, JsonModel)>),
}

impl Json {
    /// The tree of this value.
    pub open spec fn view(&self) -> JsonModel
        decreases self,
    {
        match self {
            Json::Null => JsonModel::Null,
            Json::Bool(b) => JsonModel::Bool(*b),
            Json::Uint(n) => JsonModel::Int(*n as int),
            Json::Int(n) => JsonModel::Int(*n as int),
            Json::Real(t) => JsonModel::Real(t@),
            Json::Text(t) => JsonModel::Text(t@),
            Json::List(items) => JsonModel::List(list_model(items@)),
            Json::Object(fields) => JsonModel::Object(fields_model(fields@)),
        }
    }
}

/// The trees of a list's items.
pub open spec fn list_model(items: Seq<Json>) -> Seq<JsonModel>
    decreases items,
{
    if items.len() == 0 {
        Seq::empty()
    } else {
        list_model(items.drop_last()).push(items.last().view())
    }
}

/// The keys of an object's fields with the trees of their values.
pub open spec fn fields_model(fields: Seq<(String, Json)>) -> Seq<(Seq<char>, JsonModel)>
    decreases fields,
{
    if fields.len() == 0 {
        Seq::empty()
    } else {
        fields_model(fields.drop_last()).push((fields.last().0@, fields.last().1.view()))
    }
}

/// Item `i` of a list's model is the tree of item `i`.
pub proof fn list_model_index(items: Seq<Json>)
    ensures
        list_model(items).len() == items.len(),
        forall|i: int| 0 <= i < items.len() ==> #[trigger] list_model(items)[i] == items[i].view(),
    decreases items.len(),
{
    if items.len() > 0 {
        list_model_index(items.drop_last());
        assert forall|i: int| 0 <= i < items.len() implies #[trigger] list_model(items)[i]
            == items[i].view() by {
            if i < items.len() - 1 {
                assert(list_model(items)[i] == list_model(items.drop_last())[i]);
                assert(items.drop_last()[i] == items[i]);
            }
        }
    }
}

/// Field `i` of an object's model is the key and the tree of field `i`.
pub proof fn fields_model_index(fields: Seq<(String, Json)>)
    ensures
        fields_model(fields).len() == fields.len(),
        forall|i: int|
            0 <= i < fields.len() ==> #[trigger] fields_model(fields)[i] == (
                fields[i].0@,
                fields[i].1.view(),
            ),
    decreases fields.len(),
{
    if fields.len() > 0 {
        fields_model_index(fields.drop_last());
        assert forall|i: int| 0 <= i < fields.len() implies #[trigger] fields_model(fields)[i] == (
            fields[i].0@,
            fields[i].1.view(),
        ) by {
            if i < fields.len() - 1 {
                assert(fields_model(fields)[i] == fields_model(fields.drop_last())[i]);
                assert(fields.drop_last()[i] == fields[i]);
            }
        }
    }
}

// ---------------------------------------------------------------------------------------------
// Writing
// ---------------------------------------------------------------------------------------------

/// The JSON string literal of a text, quotes and escapes included (`serde_json::to_string`).
pub uninterp spec fn json_quoted(text: Seq<char>) -> Seq<char>;

/// `serde_json::to_string` of a string: its JSON literal, which depends on the string alone.
/// Which characters are escaped and how is left to the crate.
#[verifier::external_body]
fn quote(text: &str) -> (r: String)
    ensures
        r@ == json_quoted(text@),
{
    serde_json::to_string(text).unwrap_or_default()
}

/// The compact JSON text of a tree.
pub open spec fn json_text(m: JsonModel) -> Seq<char>
    decreases m,
{
    match m {
        JsonModel::Null => "null"@,
        JsonModel::Bool(b) => if b {
            "true"@
        } else {
            "false"@
        },
        JsonModel::Int(n) => signed_decimal_of(n),
        JsonModel::Real(t) => t,
        JsonModel::Text(t) => json_quoted(t),
        JsonModel::List(items) => seq!['['] + items_text(items) + seq![']'],
        JsonModel::Object(fields) => seq!['{'] + fields_text(fields) + seq!['}'],
    }
}

/// The texts of `items`, separated by commas.
pub open spec fn items_text(items: Seq<JsonModel>) -> Seq<char>
    decreases items,
{
    if items.len() == 0 {
        Seq::empty()
    } else if items.len() == 1 {
        json_text(items.last())
    } else {
        items_text(items.drop_last()) + seq![','] + json_text(items.last())
    }
}

/// The texts of `fields` as quoted key, colon and value, separated by commas.
pub open spec fn fields_text(fields: Seq<(Seq<char>, JsonModel)>) -> Seq<char>
    decreases fields,
{
    if fields.len() == 0 {
        Seq::empty()
    } else if fields.len() == 1 {
        json_quoted(fields.last().0) + seq![':'] + json_text(fields.last().1)
    } else {
        fields_text(fields.drop_last()) + seq![','] + json_quoted(fields.last().0) + seq![':']
            + json_text(fields.last().1)
    }
}

/// The compact JSON text of a value.
pub fn write_json(value: &Json) -> (r: String)
    ensures
        r@ == json_text(value@),
    decreases *value,
{
    match value {
        Json::Null => "null".to_owned(),
        Json::Bool(b) => if *b {
            "true".to_owned()
        } else {
            "false".to_owned()
        },
        Json::Uint(n) => decimal(*n),
        Json::Int(n) => signed_decimal(*n),
        Json::Real(t) => t.clone(),
        Json::Text(t) => quote(t.as_str()),
        Json::List(items) => {
            let mut out = String::new();
            out.push('[');
            proof {
                list_model_index(items@);
                assert(list_model(items@).take(0) =~= Seq::empty());
            }
            let mut i: usize = 0;
            while i < items.len()
                invariant
                    0 <= i <= items@.len(),
                    value matches Json::List(v) && v == items,
                    out@ == seq!['['] + items_text(list_model(items@).take(i as int)),
                    list_model(items@).len() == items@.len(),
                decreases items@.len() - i,
            {
                let ghost before = list_model(items@).take(i as int);
                if i > 0 {
                    out.push(',');
                }
                let part = write_json(&items[i]);
                out.append(part.as_str());
                i = i + 1;
                proof {
                    let after = list_model(items@).take(i as int);
                    list_model_index(items@);
                    assert(after.drop_last() =~= before);
                    assert(after.last() == items@[i - 1].view());
                    assert(out@ =~= seq!['['] + items_text(after));
                }
            }
            out.push(']');
            proof {
                list_model_index(items@);
                assert(list_model(items@).take(i as int) =~= list_model(items@));
                assert(out@ =~= json_text(value@));
            }
            out
        },
        Json::Object(fields) => {
            let mut out = String::new();
            out.push('{');
            proof {
                fields_model_index(fields@);
                assert(fields_model(fields@).take(0) =~= Seq::empty());
            }
            let mut i: usize = 0;
            while i < fields.len()
                invariant
                    0 <= i <= fields@.len(),
                    value matches Json::Object(v) && v == fields,
                    out@ == seq!['{'] + fields_text(fields_model(fields@).take(i as int)),
                    fields_model(fields@).len() == fields@.len(),
                decreases fields@.len() - i,
            {
                let ghost before = fields_model(fields@).take(i as int);
                if i > 0 {
                    out.push(',');
                }
                let key = quote(fields[i].0.as_str());
                out.append(key.as_str());
                out.push(':');
                let part = write_json(&fields[i].1);
                out.append(part.as_str());
                i = i + 1;
                proof {
                    let after = fields_model(fields@).take(i as int);
                    fields_model_index(fields@);
                    assert(after.drop_last() =~= before);
                    assert(after.last() == (fields@[i - 1].0@, fields@[i - 1].1.view()));
                    assert(out@ =~= seq!['{'] + fields_text(after));
                }
            }
            out.push('}');
            proof {
                fields_model_index(fields@);
                assert(fields_model(fields@).take(i as int) =~= fields_model(fields@));
                assert(out@ =~= json_text(value@));
            }
            out
        },
    }
}

// ---------------------------------------------------------------------------------------------
// Reading
// ---------------------------------------------------------------------------------------------

/// The crate's own JSON value; nothing inside it is visible here.
#[verifier::external_type_specification]
#[verifier::external_body]
pub struct ExValue(serde_json::Value);

/// The tree that a `serde_json::Value` holds. Object fields stand in the order in which the
/// value's map is walked, which is the order of its keys.
pub uninterp spec fn value_model(v: serde_json::Value) -> JsonModel;

/// What `serde_json::from_str` reads from a text: the tree, or nothing where the text is no JSON.
pub uninterp spec fn parsed(text: Seq<char>) -> Option<JsonModel>;

/// One level of a `serde_json::Value`.
enum Level {
    Null,
    Bool(bool),
    Uint(u64),
    Int(i64),
    Real(String),
    Text(String),
    List(Vec<serde_json::Value>),
    Object(Vec<(String, serde_json::Value)>),
}

/// Whether one level stands for the tree `m`.
spec fn level_of(level: Level, m: JsonModel) -> bool {
    match level {
        Level::Null => m == JsonModel::Null,
        Level::Bool(b) => m == JsonModel::Bool(b),
        Level::Uint(n) => m == JsonModel::Int(n as int),
        Level::Int(n) => m == JsonModel::Int(n as int),
        Level::Real(t) => m == JsonModel::Real(t@),
        Level::Text(t) => m == JsonModel::Text(t@),
        Level::List(items) => m matches JsonModel::List(s) && s.len() == items@.len() && (forall|
            i: int,
        |
            0 <= i < s.len() ==> #[trigger] s[i] == value_model(items@[i])),
        Level::Object(fields) => m matches JsonModel::Object(s) && s.len() == fields@.len() && (
        forall|i: int|
            0 <= i < s.len() ==> #[trigger] s[i] == (
                fields@[i].0@,
                value_model(fields@[i].1),
            )),
    }
}

/// `serde_json::from_str`: the value that the text spells, or nothing where it spells none.
#[verifier::external_body]
fn parse_value(text: &str) -> (r: Option<serde_json::Value>)
    ensures
        r is None ==> parsed(text@) is None,
        r matches Some(v) ==> parsed(text@) == Some(value_model(v)),
{
    serde_json::from_str(text).ok()
}

/// The variants of `serde_json::Value`, taken apart one level deep. A number is an unsigned or
/// a signed integer where `as_u64` or `as_i64` gives one, else the text that it prints as.
#[verifier::external_body]
fn take_value(v: serde_json::Value) -> (r: Level)
    ensures
        level_of(r, value_model(v)),
{
    match v {
        serde_json::Value::Null => Level::Null,
        serde_json::Value::Bool(b) => Level::Bool(b),
        serde_json::Value::Number(n) => match (n.as_u64(), n.as_i64()) {
            (Some(u), _) => Level::Uint(u),
            (None, Some(i)) => Level::Int(i),
            (None, None) => Level::Real(n.to_string()),
        },
        serde_json::Value::String(t) => Level::Text(t),
        serde_json::Value::Array(items) => Level::List(items),
        serde_json::Value::Object(fields) => Level::Object(fields.into_iter().collect()),
    }
}

/// The items of `v` in the opposite order.
fn reversed<T>(v: Vec<T>) -> (r: Vec<T>)
    ensures
        r@ == v@.reverse(),
{
    let ghost all = v@;
    let mut rest = v;
    let mut out: Vec<T> = Vec::new();
    while rest.len() > 0
        invariant
            rest@.len() + out@.len() == all.len(),
            rest@ == all.take(rest@.len() as int),
            forall|j: int| 0 <= j < out@.len() ==> #[trigger] out@[j] == all[all.len() - 1 - j],
        decreases rest@.len(),
    {
        let ghost n = rest@.len();
        match rest.pop() {
            Some(x) => {
                out.push(x);
            },
            None => {},
        }
        proof {
            assert(rest@ =~= all.take(rest@.len() as int));
        }
    }
    proof {
        assert(out@ =~= all.reverse());
    }
    out
}

fn tree_of(v: serde_json::Value) -> (r: Json)
    ensures
        r@ == value_model(v),
    decreases value_model(v),
{
    let ghost m = value_model(v);
    match take_value(v) {
        Level::Null => Json::Null,
        Level::Bool(b) => Json::Bool(b),
        Level::Uint(n) => Json::Uint(n),
        Level::Int(n) => Json::Int(n),
        Level::Real(t) => Json::Real(t),
        Level::Text(t) => Json::Text(t),
        Level::List(items) => {
            let mut items = items;
            let ghost models = m->List_0;
            let ghost all = items@;
            let mut out: Vec<Json> = Vec::new();
            let n: usize = items.len();
            items = reversed(items);
            let mut i: usize = 0;
            while i < n
                invariant
                    0 <= i <= n,
                    n == all.len(),
                    models.len() == n,
                    m == JsonModel::List(models),
                    m == value_model(v),
                    forall|j: int| 0 <= j < n ==> #[trigger] models[j] == value_model(all[j]),
                    items@ == all.reverse().take(n - i),
                    out@.len() == i,
                    forall|j: int| 0 <= j < i ==> (#[trigger] out@[j])@ == models[j],
                decreases n - i,
            {
                proof {
                    assert(items@.len() == n - i);
                    assert(items@.last() == all[i as int]);
                    assert(models[i as int] == value_model(all[i as int]));
                    assert(decreases_to!(m => m->List_0));
                    assert(decreases_to!(m->List_0 => m->List_0[i as int]));
                }
                match items.pop() {
                    Some(item) => {
                        out.push(tree_of(item));
                    },
                    None => {},
                }
                i = i + 1;
                proof {
                    assert(items@ =~= all.reverse().take(n - i));
                }
            }
            proof {
                list_model_index(out@);
                assert(list_model(out@) =~= models);
            }
            Json::List(out)
        },
        Level::Object(fields) => {
            let mut fields = fields;
            let ghost models = m->Object_0;
            let ghost all = fields@;
            let mut out: Vec<(String, Json)> = Vec::new();
            let n: usize = fields.len();
            fields = reversed(fields);
            let mut i: usize = 0;
            while i < n
                invariant
                    0 <= i <= n,
                    n == all.len(),
                    models.len() == n,
                    m == JsonModel::Object(models),
                    m == value_model(v),
                    forall|j: int|
                        0 <= j < n ==> #[trigger] models[j] == (all[j].0@, value_model(all[j].1)),
                    fields@ == all.reverse().take(n - i),
                    out@.len() == i,
                    forall|j: int|
                        0 <= j < i ==> ((#[trigger] out@[j]).0@, out@[j].1@) == models[j],
                decreases n - i,
            {
                proof {
                    assert(fields@.len() == n - i);
                    assert(fields@.last() == all[i as int]);
                    assert(models[i as int] == (all[i as int].0@, value_model(all[i as int].1)));
                    assert(decreases_to!(m => m->Object_0));
                    assert(decreases_to!(m->Object_0 => m->Object_0[i as int]));
                    assert(decreases_to!(m->Object_0[i as int] => m->Object_0[i as int].1));
                }
                match fields.pop() {
                    Some((key, item)) => {
                        let sub = tree_of(item);
                        out.push((key, sub));
                    },
                    None => {},
                }
                i = i + 1;
                proof {
                    assert(fields@ =~= all.reverse().take(n - i));
                }
            }
            proof {
                fields_model_index(out@);
                assert(fields_model(out@) =~= models);
            }
            Json::Object(out)
        },
    }
}

/// The value that a JSON text spells, or nothing where the text is no JSON.
pub fn read_json(text: &str) -> (r: Option<Json>)
    ensures
        r is Some <==> parsed(text@) is Some,
        r matches Some(v) ==> parsed(text@) == Some(v@),
{
    match parse_value(text) {
        Some(v) => Some(tree_of(v)),
        None => None,
    }
}

// ---------------------------------------------------------------------------------------------
// Looking into a value
// ---------------------------------------------------------------------------------------------

/// Position of the first field named `key`.
pub open spec fn field_at(fields: Seq<(Seq<char>, JsonModel)>, key: Seq<char>, i: int) -> bool {
    &&& 0 <= i < fields.len()
    &&& fields[i].0 == key
    &&& forall|j: int| 0 <= j < i ==> (#[trigger] fields[j]).0 != key
}

/// The value of the first field named `key` of an object; nothing where there is none.
pub open spec fn member(m: JsonModel, key: Seq<char>) -> Option<JsonModel> {
    match m {
        JsonModel::Object(fields) => if exists|i: int| field_at(fields, key, i) {
            Some(fields[choose|i: int| field_at(fields, key, i)].1)
        } else {
            None
        },
        _ => None,
    }
}

impl Json {
    /// The value of the field named `key`.
    pub fn get(&self, key: &str) -> (r: Option<&Json>)
        ensures
            r is Some <==> member(self@, key@) is Some,
            r matches Some(v) ==> member(self@, key@) == Some(v@),
    {
        match self {
            Json::Object(fields) => {
                let ghost models = fields_model(fields@);
                let mut i: usize = 0;
                while i < fields.len()
                    invariant
                        0 <= i <= fields@.len(),
                        models == fields_model(fields@),
                        self@ == JsonModel::Object(models),
                        forall|j: int| 0 <= j < i ==> (#[trigger] fields@[j]).0@ != key@,
                    decreases fields@.len() - i,
                {
                    if same_text(fields[i].0.as_str(), key) {
                        proof {
                            fields_model_index(fields@);
                            assert(models[i as int] == (fields@[i as int].0@, fields@[i as int].1@));
                            assert forall|j: int| 0 <= j < i implies (#[trigger] models[j]).0
                                != key@ by {
                                assert(fields@[j].0@ != key@);
                            }
                            assert(field_at(models, key@, i as int));
                            let k = choose|k: int| field_at(models, key@, k);
                            assert(k == i) by {
                                if k < i {
                                    assert(models[k].0 == key@);
                                } else if i < k {
                                    assert(models[i as int].0 == key@);
                                }
                            }
                            assert(member(JsonModel::Object(models), key@) == Some(models[k].1));
                            assert(member(self@, key@) is Some);
                        }
                        return Some(&fields[i].1);
                    }
                    i = i + 1;
                }
                proof {
                    fields_model_index(fields@);
                    assert forall|k: int| !field_at(models, key@, k) by {
                        if 0 <= k < models.len() {
                            assert(models[k] == (fields@[k].0@, fields@[k].1@));
                        }
                    }
                }
                None
            },
            _ => None,
        }
    }

    /// The items of a list.
    pub fn as_list(&self) -> (r: Option<&Vec<Json>>)
        ensures
            r is Some <==> self@ is List,
            r matches Some(items) ==> self@ == JsonModel::List(list_model(items@)),
    {
        match self {
            Json::List(items) => Some(items),
            _ => None,
        }
    }

    /// The text of a string value.
    pub fn as_text(&self) -> (r: Option<&String>)
        ensures
            r is Some <==> self@ is Text,
            r matches Some(t) ==> self@ == JsonModel::Text(t@),
    {
        match self {
            Json::Text(t) => Some(t),
            _ => None,
        }
    }

    /// The number, where it is an integer that `u64` holds.
    pub fn as_u64(&self) -> (r: Option<u64>)
        ensures
            r is Some <==> (self@ matches JsonModel::Int(n) && 0 <= n <= u64::MAX),
            r matches Some(n) ==> self@ == JsonModel::Int(n as int),
    {
        match self {
            Json::Uint(n) => Some(*n),
            Json::Int(n) => if *n >= 0 {
                Some(*n as u64)
            } else {
                None
            },
            _ => None,
        }
    }

    /// The number, where it is an integer that `i64` holds.
    pub fn as_i64(&self) -> (r: Option<i64>)
        ensures
            r is Some <==> (self@ matches JsonModel::Int(n) && i64::MIN <= n <= i64::MAX),
            r matches Some(n) ==> self@ == JsonModel::Int(n as int),
    {
        match self {
            Json::Int(n) => Some(*n),
            Json::Uint(n) => if *n <= 0x7fff_ffff_ffff_ffff {
                Some(*n as i64)
            } else {
                None
            },
            _ => None,
        }
    }
}

/// A field is found under its name, where no other field before it has the same.
pub proof fn member_is(fields: Seq<(Seq<char>, JsonModel)>, k: int)
    requires
        0 <= k < fields.len(),
        forall|j: int| 0 <= j < k ==> (#[trigger] fields[j]).0 != fields[k].0,
    ensures
        member(JsonModel::Object(fields), fields[k].0) == Some(fields[k].1),
{
    let key = fields[k].0;
    assert(field_at(fields, key, k));
    let c = choose|i: int| field_at(fields, key, i);
    assert(field_at(fields, key, c));
    if c < k {
        assert(fields[c].0 != key);
    } else if k < c {
        assert(fields[k].0 != key);
    }
}

/// What no field is named is not found, and nothing is found in what is no object.
pub proof fn absent_members(m: JsonModel, key: Seq<char>)
    ensures
        m matches JsonModel::Object(fields) ==> (member(m, key) is None <==> forall|i: int|
            0 <= i < fields.len() ==> (#[trigger] fields[i]).0 != key),
        !(m is Object) ==> member(m, key) is None,
{
    if m is Object {
        let fields = m->Object_0;
        if exists|i: int| 0 <= i < fields.len() && (#[trigger] fields[i]).0 == key {
            let i = choose|i: int| 0 <= i < fields.len() && (#[trigger] fields[i]).0 == key;
            some_first(fields, key, i);
        }
    }
}

proof fn some_first(fields: Seq<(Seq<char>, JsonModel)>, key: Seq<char>, i: int)
    requires
        0 <= i < fields.len(),
        fields[i].0 == key,
    ensures
        exists|k: int| field_at(fields, key, k),
    decreases i,
{
    if exists|j: int| 0 <= j < i && (#[trigger] fields[j]).0 == key {
        let j = choose|j: int| 0 <= j < i && (#[trigger] fields[j]).0 == key;
        some_first(fields, key, j);
    } else {
        assert(field_at(fields, key, i));
    }
}

} // verus!
