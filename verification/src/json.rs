//! JSON values as plain data: what a request or an event holds, and replies
//! built field by field.
use vstd::prelude::*;
use crate::text::{opt_text, texts};

verus! {

/// A JSON value. A number is kept as an unsigned integer where it is one, and
/// as its text otherwise; the fields of an object stand in a list.
#[derive(Debug, PartialEq)]
pub enum Json {
    Null,
    Bool(bool),
    Uint(u64),
    OtherNumber(String),
    Str(String),
    Array(Vec<Json>),
    Object(Vec<(String, Json)>),
}

/// The mathematical counterpart of [`Json`].
pub enum JsonV {
    Null,
    Bool(bool),
    Uint(u64),
    OtherNumber(Seq<char>),
    Str(Seq<char>),
    Arr(Seq<JsonV>),
    Obj(Seq<(Seq<char>, JsonV)>),
}

impl Json {
    pub open spec fn view(&self) -> JsonV
        decreases self,
    {
        match self {
            Json::Null => JsonV::Null,
            Json::Bool(b) => JsonV::Bool(*b),
            Json::Uint(n) => JsonV::Uint(*n),
            Json::OtherNumber(t) => JsonV::OtherNumber(t@),
            Json::Str(s) => JsonV::Str(s@),
            Json::Array(items) => JsonV::Arr(
                Seq::new(
                    items@.len(),
                    |i: int|
                        if 0 <= i < items@.len() {
                            items@[i].view()
                        } else {
                            JsonV::Null
                        },
                ),
            ),
            Json::Object(fields) => JsonV::Obj(
                Seq::new(
                    fields@.len(),
                    |i: int|
                        if 0 <= i < fields@.len() {
                            (fields@[i].0@, fields@[i].1.view())
                        } else {
                            (Seq::empty(), JsonV::Null)
                        },
                ),
            ),
        }
    }
}

/// The values of a list.
pub open spec fn trees(items: Seq<Json>) -> Seq<JsonV> {
    Seq::new(items.len(), |i: int| items[i]@)
}

/// The names and values of a list of fields.
pub open spec fn field_trees(fields: Seq<(String, Json)>) -> Seq<(Seq<char>, JsonV)> {
    Seq::new(fields.len(), |i: int| (fields[i].0@, fields[i].1@))
}

pub proof fn lemma_array_view(j: Json, items: Vec<Json>)
    requires
        j == Json::Array(items),
    ensures
        j@ == JsonV::Arr(trees(items@)),
{
    match j@ {
        JsonV::Arr(s) => {
            assert(s =~= trees(items@));
        },
        _ => {},
    }
}

pub proof fn lemma_object_view(j: Json, fields: Vec<(String, Json)>)
    requires
        j == Json::Object(fields),
    ensures
        j@ == JsonV::Obj(field_trees(fields@)),
{
    match j@ {
        JsonV::Obj(s) => {
            assert(s =~= field_trees(fields@));
        },
        _ => {},
    }
}

/// The value of the first field of that name.
pub open spec fn lookup(fields: Seq<(Seq<char>, JsonV)>, key: Seq<char>) -> Option<JsonV>
    decreases fields.len(),
{
    if fields.len() == 0 {
        None
    } else if fields[0].0 == key {
        Some(fields[0].1)
    } else {
        lookup(fields.drop_first(), key)
    }
}

impl JsonV {
    /// The value of a field; nothing where this is no object.
    pub open spec fn get(self, key: Seq<char>) -> Option<JsonV> {
        match self {
            JsonV::Obj(fields) => lookup(fields, key),
            _ => None,
        }
    }

    pub open spec fn as_str(self) -> Option<Seq<char>> {
        match self {
            JsonV::Str(s) => Some(s),
            _ => None,
        }
    }

    /// The text of a field that is a string.
    pub open spec fn str_at(self, key: Seq<char>) -> Option<Seq<char>> {
        match self.get(key) {
            Some(v) => v.as_str(),
            None => None,
        }
    }

    /// The text of a field that is a string, or the empty text.
    pub open spec fn str_or_empty(self, key: Seq<char>) -> Seq<char> {
        match self.str_at(key) {
            Some(s) => s,
            None => Seq::empty(),
        }
    }

    /// The number of a field that is an unsigned integer.
    pub open spec fn u64_at(self, key: Seq<char>) -> Option<u64> {
        match self.get(key) {
            Some(JsonV::Uint(n)) => Some(n),
            _ => None,
        }
    }

    /// The truth value of a field that is one.
    pub open spec fn bool_at(self, key: Seq<char>) -> Option<bool> {
        match self.get(key) {
            Some(JsonV::Bool(b)) => Some(b),
            _ => None,
        }
    }

    /// The items of a field that is an array.
    pub open spec fn array_at(self, key: Seq<char>) -> Option<Seq<JsonV>> {
        match self.get(key) {
            Some(JsonV::Arr(items)) => Some(items),
            _ => None,
        }
    }
}

impl Json {
    /// The value of a field.
    pub fn get(&self, key: &str) -> (r: Option<&Json>)
        ensures
            match r {
                Some(j) => self@.get(key@) == Some(j@),
                None => self@.get(key@) is None,
            },
    {
        match self {
            Json::Object(fields) => {
                let ghost all = field_trees(fields@);
                proof {
                    lemma_object_view(*self, *fields);
                    assert(all.subrange(0, all.len() as int) =~= all);
                }
                let mut i: usize = 0;
                while i < fields.len()
                    invariant
                        i <= fields@.len(),
                        all == field_trees(fields@),
                        lookup(all, key@) == lookup(
                            all.subrange(i as int, all.len() as int),
                            key@,
                        ),
                        self@ == JsonV::Obj(all),
                    decreases fields@.len() - i,
                {
                    let ghost rest = all.subrange(i as int, all.len() as int);
                    proof {
                        assert(rest[0] == all[i as int]);
                        assert(rest.drop_first() =~= all.subrange(i + 1, all.len() as int));
                    }
                    if crate::text::same_text(fields[i].0.as_str(), key) {
                        return Some(&fields[i].1);
                    }
                    i += 1;
                }
                None
            },
            _ => None,
        }
    }

    /// The text of a field that is a string.
    pub fn get_str(&self, key: &str) -> (r: Option<String>)
        ensures
            opt_text(r) == self@.str_at(key@),
    {
        match self.get(key) {
            Some(Json::Str(s)) => Some(s.clone()),
            _ => None,
        }
    }

    /// The text of a field that is a string, or the empty text.
    pub fn get_str_or_empty(&self, key: &str) -> (r: String)
        ensures
            r@ == self@.str_or_empty(key@),
    {
        match self.get_str(key) {
            Some(s) => s,
            None => String::new(),
        }
    }

    /// The number of a field that is an unsigned integer.
    pub fn get_u64(&self, key: &str) -> (r: Option<u64>)
        ensures
            r == self@.u64_at(key@),
    {
        match self.get(key) {
            Some(Json::Uint(n)) => Some(*n),
            _ => None,
        }
    }

    /// The truth value of a field that is one.
    pub fn get_bool(&self, key: &str) -> (r: Option<bool>)
        ensures
            r == self@.bool_at(key@),
    {
        match self.get(key) {
            Some(Json::Bool(b)) => Some(*b),
            _ => None,
        }
    }

    /// The items of a field that is an array.
    pub fn get_array(&self, key: &str) -> (r: Option<&Vec<Json>>)
        ensures
            match r {
                Some(items) => self@.array_at(key@) == Some(trees(items@)),
                None => self@.array_at(key@) is None,
            },
    {
        match self.get(key) {
            Some(j) => match j {
                Json::Array(items) => {
                    proof {
                        lemma_array_view(*j, *items);
                    }
                    Some(items)
                },
                _ => None,
            },
            None => None,
        }
    }

    /// A copy of the value.
    pub fn copy(&self) -> (r: Json)
        ensures
            r@ == self@,
        decreases self,
    {
        match self {
            Json::Null => Json::Null,
            Json::Bool(b) => Json::Bool(*b),
            Json::Uint(n) => Json::Uint(*n),
            Json::OtherNumber(t) => Json::OtherNumber(t.clone()),
            Json::Str(s) => Json::Str(s.clone()),
            Json::Array(items) => {
                let mut out: Vec<Json> = Vec::new();
                let mut i: usize = 0;
                while i < items.len()
                    invariant
                        i <= items@.len(),
                        out@.len() == i,
                        *self == Json::Array(*items),
                        forall|k: int| 0 <= k < i ==> (#[trigger] out@[k])@ == items@[k]@,
                    decreases items@.len() - i,
                {
                    proof {
                        assert(decreases_to!(*self => self->Array_0));
                        assert(decreases_to!(self->Array_0 => self->Array_0@));
                        assert(decreases_to!(self->Array_0@ => self->Array_0@[i as int]));
                    }
                    let one = items[i].copy();
                    out.push(one);
                    i += 1;
                }
                proof {
                    assert(trees(out@) =~= trees(items@));
                    lemma_array_view(*self, *items);
                    lemma_array_view(Json::Array(out), out);
                }
                Json::Array(out)
            },
            Json::Object(fields) => {
                let mut out: Vec<(String, Json)> = Vec::new();
                let mut i: usize = 0;
                while i < fields.len()
                    invariant
                        i <= fields@.len(),
                        out@.len() == i,
                        *self == Json::Object(*fields),
                        forall|k: int|
                            0 <= k < i ==> (#[trigger] out@[k]).0@ == fields@[k].0@ && out@[k].1@
                                == fields@[k].1@,
                    decreases fields@.len() - i,
                {
                    proof {
                        assert(decreases_to!(*self => self->Object_0));
                        assert(decreases_to!(self->Object_0 => self->Object_0@));
                        assert(decreases_to!(self->Object_0@ => self->Object_0@[i as int]));
                        assert(decreases_to!(self->Object_0@[i as int] => self->Object_0@[i as int].1));
                    }
                    let one = fields[i].1.copy();
                    out.push((fields[i].0.clone(), one));
                    i += 1;
                }
                proof {
                    assert(field_trees(out@) =~= field_trees(fields@));
                    lemma_object_view(*self, *fields);
                    lemma_object_view(Json::Object(out), out);
                }
                Json::Object(out)
            },
        }
    }
}

impl Clone for Json {
    fn clone(&self) -> (r: Json)
        ensures
            r@ == self@,
    {
        self.copy()
    }
}

/// The fields of an object, in order.
pub struct ObjV {
    pub fields: Seq<(Seq<char>, JsonV)>,
}

/// An object without fields.
pub open spec fn obj() -> ObjV {
    ObjV { fields: Seq::empty() }
}

impl ObjV {
    pub open spec fn with(self, key: Seq<char>, value: JsonV) -> ObjV {
        ObjV { fields: self.fields.push((key, value)) }
    }

    pub open spec fn flag(self, key: Seq<char>, value: bool) -> ObjV {
        self.with(key, JsonV::Bool(value))
    }

    pub open spec fn text(self, key: Seq<char>, value: Seq<char>) -> ObjV {
        self.with(key, JsonV::Str(value))
    }

    pub open spec fn number(self, key: Seq<char>, value: u64) -> ObjV {
        self.with(key, JsonV::Uint(value))
    }

    pub open spec fn opt(self, key: Seq<char>, value: Option<Seq<char>>) -> ObjV {
        self.with(key, opt_str_tree(value))
    }

    pub open spec fn texts(self, key: Seq<char>, values: Seq<Seq<char>>) -> ObjV {
        self.with(key, str_array(values))
    }

    pub open spec fn done(self) -> JsonV {
        JsonV::Obj(self.fields)
    }
}

/// The fields of an object under construction.
pub struct Fields {
    entries: Vec<(String, Json)>,
}

impl Fields {
    pub closed spec fn view(&self) -> ObjV {
        ObjV { fields: field_trees(self.entries@) }
    }

    /// No fields yet.
    pub fn new() -> (r: Fields)
        ensures
            r@ == obj(),
    {
        let r = Fields { entries: Vec::new() };
        proof {
            assert(r@.fields =~= Seq::<(Seq<char>, JsonV)>::empty());
        }
        r
    }

    /// One more field.
    pub fn with(self, key: &str, value: Json) -> (r: Fields)
        ensures
            r@ == self@.with(key@, value@),
    {
        let mut entries = self.entries;
        let ghost before = entries@;
        let name = key.to_owned();
        entries.push((name, value));
        let r = Fields { entries };
        proof {
            assert(r.entries@ == before.push((name, value)));
            assert(r@.fields =~= field_trees(before).push((key@, value@)));
        }
        r
    }

    /// One more field that is a truth value.
    pub fn flag(self, key: &str, value: bool) -> (r: Fields)
        ensures
            r@ == self@.flag(key@, value),
    {
        self.with(key, Json::Bool(value))
    }

    /// One more field that is a string.
    pub fn text(self, key: &str, value: &str) -> (r: Fields)
        ensures
            r@ == self@.text(key@, value@),
    {
        self.with(key, Json::Str(value.to_owned()))
    }

    /// One more field that is an unsigned integer.
    pub fn number(self, key: &str, value: u64) -> (r: Fields)
        ensures
            r@ == self@.number(key@, value),
    {
        self.with(key, Json::Uint(value))
    }

    /// One more field that is a string, or null where there is none.
    pub fn opt(self, key: &str, value: &Option<String>) -> (r: Fields)
        ensures
            r@ == self@.opt(key@, opt_text(*value)),
    {
        match value {
            Some(s) => self.text(key, s.as_str()),
            None => self.with(key, Json::Null),
        }
    }

    /// One more field that is an array of strings.
    pub fn texts(self, key: &str, values: &Vec<String>) -> (r: Fields)
        ensures
            r@ == self@.texts(key@, texts(values@)),
    {
        let list = text_array(values);
        self.with(key, list)
    }

    /// The object.
    pub fn finish(self) -> (r: Json)
        ensures
            r@ == self@.done(),
    {
        let entries = self.entries;
        let r = Json::Object(entries);
        proof {
            lemma_object_view(r, entries);
        }
        r
    }
}

/// A string or null.
pub open spec fn opt_str_tree(o: Option<Seq<char>>) -> JsonV {
    match o {
        Some(s) => JsonV::Str(s),
        None => JsonV::Null,
    }
}

/// An array of strings.
pub open spec fn str_array(s: Seq<Seq<char>>) -> JsonV {
    JsonV::Arr(Seq::new(s.len(), |i: int| JsonV::Str(s[i])))
}

/// An array of strings.
pub fn text_array(values: &Vec<String>) -> (r: Json)
    ensures
        r@ == str_array(texts(values@)),
{
    let mut items: Vec<Json> = Vec::new();
    let mut i: usize = 0;
    while i < values.len()
        invariant
            i <= values@.len(),
            items@.len() == i,
            forall|k: int| 0 <= k < i ==> (#[trigger] items@[k])@ == JsonV::Str(values@[k]@),
        decreases values@.len() - i,
    {
        items.push(Json::Str(values[i].clone()));
        i += 1;
    }
    let r = Json::Array(items);
    proof {
        lemma_array_view(r, items);
        let s = texts(values@);
        assert(trees(items@) =~= Seq::new(s.len(), |i: int| JsonV::Str(s[i])));
    }
    r
}

/// An array of the given values.
pub fn array_of(items: Vec<Json>) -> (r: Json)
    ensures
        r@ == JsonV::Arr(trees(items@)),
{
    let r = Json::Array(items);
    proof {
        lemma_array_view(r, items);
    }
    r
}

/// The reply that refuses a request: `ok` is false and `error` says why.
pub open spec fn refusal(why: Seq<char>) -> JsonV {
    obj().flag("ok"@, false).text("error"@, why).done()
}

proof fn lemma_lookup_push(
    fields: Seq<(Seq<char>, JsonV)>,
    key: Seq<char>,
    value: JsonV,
    name: Seq<char>,
)
    ensures
        lookup(fields.push((key, value)), name) == match lookup(fields, name) {
            Some(v) => Some(v),
            None => if key == name {
                Some(value)
            } else {
                None
            },
        },
    decreases fields.len(),
{
    let more = fields.push((key, value));
    if fields.len() == 0 {
        assert(more.drop_first() =~= fields);
        assert(more[0] == (key, value));
    } else {
        assert(more[0] == fields[0]);
        if fields[0].0 != name {
            assert(more.drop_first() =~= fields.drop_first().push((key, value)));
            lemma_lookup_push(fields.drop_first(), key, value, name);
        }
    }
}

/// A field that is added to an object is found there, unless one of its name is
/// there already; every other field is found as before.
pub broadcast proof fn lemma_get_with(o: ObjV, key: Seq<char>, value: JsonV, name: Seq<char>)
    ensures
        #[trigger] o.with(key, value).done().get(name) == match o.done().get(name) {
            Some(v) => Some(v),
            None => if key == name {
                Some(value)
            } else {
                None
            },
        },
{
    lemma_lookup_push(o.fields, key, value, name);
}

/// An object without fields has none of any name.
pub broadcast proof fn lemma_get_empty(name: Seq<char>)
    ensures
        #[trigger] obj().done().get(name) is None,
{
}

/// A refusal says that the request failed, and why, and nothing else.
pub proof fn a_refusal_says_why(why: Seq<char>)
    ensures
        refusal(why) == JsonV::Obj(
            seq![("ok"@, JsonV::Bool(false)), ("error"@, JsonV::Str(why))],
        ),
        refusal(why).bool_at("ok"@) == Some(false),
        refusal(why).str_at("error"@) == Some(why),
{
    broadcast use {lemma_get_with, lemma_get_empty};

    reveal_strlit("ok");
    reveal_strlit("error");
    assert("ok"@.len() == 2);
    assert("error"@.len() == 5);
    assert(refusal(why)->Obj_0 =~= seq![
        ("ok"@, JsonV::Bool(false)),
        ("error"@, JsonV::Str(why)),
    ]);
}

/// The reply that refuses a request.
pub fn refuse(why: &str) -> (r: Json)
    ensures
        r@ == refusal(why@),
{
    Fields::new().flag("ok", false).text("error", why).finish()
}

/// A value of serde_json, carried through unread.
#[verifier::external_type_specification]
#[verifier::external_body]
pub struct ExValue(serde_json::Value);

/// What `serde_json::from_str` reads from a text, or none where the text is no JSON.
pub uninterp spec fn json_text(text: Seq<char>) -> Option<JsonV>;

/// What the error of `serde_json::from_str` says of a text that is no JSON: what is
/// wrong, and at which line and column.
pub uninterp spec fn json_complaint(text: Seq<char>) -> Seq<char>;

/// What `serde_json::Value`'s `Display` writes for a value.
pub uninterp spec fn json_display(tree: JsonV) -> Seq<char>;

/// Moves a value of serde_json over, variant by variant. Nothing is claimed of
/// the result here; [`parse_json`] names it as a whole.
#[verifier::external_body]
fn json_of_value(value: serde_json::Value) -> Json {
    match value {
        serde_json::Value::Null => Json::Null,
        serde_json::Value::Bool(b) => Json::Bool(b),
        serde_json::Value::Number(n) => match n.as_u64() {
            Some(u) => Json::Uint(u),
            None => Json::OtherNumber(n.to_string()),
        },
        serde_json::Value::String(s) => Json::Str(s),
        serde_json::Value::Array(a) => Json::Array(a.into_iter().map(json_of_value).collect()),
        serde_json::Value::Object(o) => {
            Json::Object(o.into_iter().map(|(k, v)| (k, json_of_value(v))).collect())
        },
    }
}

/// Moves a value over to serde_json, variant by variant; the text of a number that
/// serde_json cannot hold becomes null. Nothing is claimed of the result here;
/// [`render_json`] names what becomes of it.
#[verifier::external_body]
fn value_of_json(json: &Json) -> serde_json::Value {
    match json {
        Json::Null => serde_json::Value::Null,
        Json::Bool(b) => serde_json::Value::Bool(*b),
        Json::Uint(n) => serde_json::Value::from(*n),
        Json::OtherNumber(t) => match t.parse::<i64>() {
            Ok(n) => serde_json::Value::from(n),
            Err(_) => t.parse().ok().and_then(serde_json::Number::from_f64).into(),
        },
        Json::Str(s) => serde_json::Value::String(s.clone()),
        Json::Array(a) => a.iter().map(value_of_json).collect(),
        Json::Object(o) => o.iter().map(|(k, v)| (k.clone(), value_of_json(v))).collect(),
    }
}

/// `serde_json::from_str` into a `serde_json::Value`. What it reads depends on
/// the text alone and is named [`json_text`]; it fails where that is none. What its
/// error says depends on the text alone too and is named [`json_complaint`].
#[verifier::external_body]
pub(crate) fn parse_json(text: &str) -> (r: Result<Json, String>)
    ensures
        match r {
            Ok(j) => json_text(text@) == Some(j@),
            Err(e) => json_text(text@) is None && e@ == json_complaint(text@),
        },
{
    serde_json::from_str::<serde_json::Value>(text).map(json_of_value).map_err(|e| e.to_string())
}

/// `Display` of `serde_json::Value`: the compact text of the value, which
/// depends on the value alone and is named [`json_display`].
#[verifier::external_body]
pub(crate) fn render_json(json: &Json) -> (r: String)
    ensures
        r@ == json_display(json@),
{
    value_of_json(json).to_string()
}

/// The first field of a name is the one that counts; what is no object has no fields.
pub proof fn the_first_field_of_a_name_counts(
    fields: Seq<(Seq<char>, JsonV)>,
    key: Seq<char>,
    i: int,
)
    requires
        0 <= i <= fields.len(),
        forall|j: int| 0 <= j < i ==> (#[trigger] fields[j]).0 != key,
        i < fields.len() ==> fields[i].0 == key,
    ensures
        JsonV::Obj(fields).get(key) == if i < fields.len() {
            Some(fields[i].1)
        } else {
            None
        },
    decreases fields.len(),
{
    if i > 0 {
        let tail = fields.drop_first();
        assert(fields[0].0 != key);
        assert forall|j: int| 0 <= j < i - 1 implies (#[trigger] tail[j]).0 != key by {
            assert(tail[j] == fields[j + 1]);
        }
        the_first_field_of_a_name_counts(tail, key, i - 1);
        assert(JsonV::Obj(tail).get(key) == lookup(tail, key));
    }
}

/// A field is read as what it is: a text, a whole number, a truth value or a list, and as nothing
/// where it is something else or is not there.
pub proof fn a_field_is_read_by_its_kind(
    j: Json,
    key: &str,
    text: Option<String>,
    or_empty: String,
    number: Option<u64>,
    flag: Option<bool>,
    list: Option<&Vec<Json>>,
)
    requires
        call_ensures(Json::get_str, (&j, key), text),
        call_ensures(Json::get_str_or_empty, (&j, key), or_empty),
        call_ensures(Json::get_u64, (&j, key), number),
        call_ensures(Json::get_bool, (&j, key), flag),
        call_ensures(Json::get_array, (&j, key), list),
    ensures
        text matches Some(s) ==> j@.get(key@) == Some(JsonV::Str(s@)) && or_empty@ == s@,
        text is None ==> !(j@.get(key@) matches Some(JsonV::Str(_))) && or_empty@.len() == 0,
        number matches Some(n) ==> j@.get(key@) == Some(JsonV::Uint(n)),
        number is None ==> !(j@.get(key@) matches Some(JsonV::Uint(_))),
        flag matches Some(b) ==> j@.get(key@) == Some(JsonV::Bool(b)),
        flag is None ==> !(j@.get(key@) matches Some(JsonV::Bool(_))),
        list matches Some(items) ==> j@.get(key@) == Some(JsonV::Arr(trees(items@))),
        list is None ==> !(j@.get(key@) matches Some(JsonV::Arr(_))),
{
}

} // verus!
