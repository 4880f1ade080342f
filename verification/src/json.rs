//! JSON values: reading text into them, picking fields out of them.
use vstd::prelude::*;

use crate::numerals::{
    all_digits, decimal, digits_value, i64_text, law_decimal_round_trip, lemma_decimal_nat_value,
    parse_i64, parsed_i64,
};
use crate::text::{str_eq, texts, trimmed};

verus! {

broadcast use vstd::seq_lib::group_seq_properties;

/// A JSON value. A number is kept as its text.
#[derive(Debug)]
pub enum Json {
    Null,
    Bool(bool),
    Number(String),
    Text(String),
    Array(Vec<Json>),
    Object(Vec<(String, Json)>),
}

/// What a JSON value holds.
pub enum JsonView {
    Null,
    Bool(bool),
    Number(Seq<char>),
    Text(Seq<char>),
    Array(Seq<JsonView>),
    Object(Seq<(Seq<char>, JsonView)>),
}

pub open spec fn json_view(j: Json) -> JsonView
    decreases j,
{
    match j {
        Json::Null => JsonView::Null,
        Json::Bool(b) => JsonView::Bool(b),
        Json::Number(n) => JsonView::Number(n@),
        Json::Text(t) => JsonView::Text(t@),
        Json::Array(items) => JsonView::Array(
            Seq::new(
                items@.len(),
                |i: int|
                    if 0 <= i < items@.len() {
                        json_view(items@[i])
                    } else {
                        JsonView::Null
                    },
            ),
        ),
        Json::Object(fields) => JsonView::Object(
            Seq::new(
                fields@.len(),
                |i: int|
                    if 0 <= i < fields@.len() {
                        (fields@[i].0@, json_view(fields@[i].1))
                    } else {
                        (Seq::empty(), JsonView::Null)
                    },
            ),
        ),
    }
}

impl View for Json {
    type V = JsonView;

    open spec fn view(&self) -> JsonView {
        json_view(*self)
    }
}

impl JsonView {
    /// The value of a field of an object; `Null` where there is none.
    pub open spec fn field(self, key: Seq<char>) -> JsonView {
        match self {
            JsonView::Object(fields) => lookup(fields, key),
            _ => JsonView::Null,
        }
    }

    /// The item of an array at an index; `Null` where there is none.
    pub open spec fn item(self, i: int) -> JsonView {
        match self {
            JsonView::Array(items) if 0 <= i < items.len() => items[i],
            _ => JsonView::Null,
        }
    }

    pub open spec fn as_text(self) -> Option<Seq<char>> {
        match self {
            JsonView::Text(t) => Some(t),
            _ => None,
        }
    }

    pub open spec fn as_bool(self) -> Option<bool> {
        match self {
            JsonView::Bool(b) => Some(b),
            _ => None,
        }
    }

    /// A number without fraction or exponent, in the range of `u64`.
    pub open spec fn as_u64(self) -> Option<int> {
        match self {
            JsonView::Number(n) if all_digits(n) && digits_value(n) <= u64::MAX => Some(
                digits_value(n) as int,
            ),
            _ => None,
        }
    }

    /// A number without fraction or exponent, in the range of `i64`.
    pub open spec fn as_i64(self) -> Option<int> {
        match self {
            JsonView::Number(n) => parsed_i64(n),
            _ => None,
        }
    }

    pub open spec fn as_array(self) -> Option<Seq<JsonView>> {
        match self {
            JsonView::Array(items) => Some(items),
            _ => None,
        }
    }
}

/// The value of the last field of that name; `Null` where there is none.
pub open spec fn lookup(fields: Seq<(Seq<char>, JsonView)>, key: Seq<char>) -> JsonView
    decreases fields.len(),
{
    if fields.len() == 0 {
        JsonView::Null
    } else if fields.last().0 == key {
        fields.last().1
    } else {
        lookup(fields.drop_last(), key)
    }
}

/// The value type of `serde_json`.
#[verifier::external_type_specification]
#[verifier::external_body]
pub struct ExValue(serde_json::Value);

/// The error type of `serde_json`.
#[verifier::external_type_specification]
#[verifier::external_body]
pub struct ExError(serde_json::Error);

/// What a `serde_json::Value` holds: its variant, with the text that
/// `Number`'s `Display` writes for a number and the entries of a map in the
/// map's order.
pub uninterp spec fn value_contents(v: serde_json::Value) -> JsonView;

/// What `serde_json::from_str` reads from a text, if the text is JSON.
pub uninterp spec fn parsed_json(text: Seq<char>) -> Option<JsonView>;

/// An array of texts.
pub open spec fn text_array(items: Seq<Seq<char>>) -> JsonView {
    JsonView::Array(items.map_values(|t: Seq<char>| JsonView::Text(t)))
}

/// The JSON text of an array of texts.
pub open spec fn json_texts(items: Seq<Seq<char>>) -> Seq<char> {
    json_text(stored_json(text_array(items)))
}

/// Whether a value is an array of texts.
pub open spec fn is_text_array(j: JsonView) -> bool {
    match j {
        JsonView::Array(items) => forall|i: int| 0 <= i < items.len() ==> (#[trigger] items[i]) is Text,
        _ => false,
    }
}

/// The texts of an array of texts.
pub open spec fn array_texts(j: JsonView) -> Seq<Seq<char>> {
    j->Array_0.map_values(|x: JsonView| x->Text_0)
}

/// Whether a value is an object whose values are texts.
pub open spec fn is_text_object(j: JsonView) -> bool {
    match j {
        JsonView::Object(fields) => forall|i: int|
            0 <= i < fields.len() ==> (#[trigger] fields[i]).1 is Text,
        _ => false,
    }
}

/// The names and texts of an object whose values are texts.
pub open spec fn object_texts(j: JsonView) -> Seq<(Seq<char>, Seq<char>)> {
    j->Object_0.map_values(|f: (Seq<char>, JsonView)| (f.0, f.1->Text_0))
}

/// `serde_json::from_str::<Value>`: whether it succeeds, and what it reads,
/// depends on the text alone. A text of whitespace alone is not JSON.
#[verifier::external_body]
fn read_value(text: &str) -> (r: Result<serde_json::Value, serde_json::Error>)
    ensures
        match r {
            Ok(v) => parsed_json(text@) == Some(value_contents(v)) && trimmed(text@).len() > 0,
            Err(_) => parsed_json(text@) is None,
        },
{
    serde_json::from_str::<serde_json::Value>(text)
}

/// A `serde_json::Value`, variant by variant, as a value of this crate.
#[verifier::external_body]
fn from_value(v: serde_json::Value) -> (r: Json)
    ensures
        r@ == value_contents(v),
{
    match v {
        serde_json::Value::Null => Json::Null,
        serde_json::Value::Bool(b) => Json::Bool(b),
        serde_json::Value::Number(n) => Json::Number(n.to_string()),
        serde_json::Value::String(t) => Json::Text(t),
        serde_json::Value::Array(a) => Json::Array(a.into_iter().map(from_value).collect()),
        serde_json::Value::Object(m) => Json::Object(m.into_iter().map(|(k, x)| (k, from_value(x))).collect()),
    }
}

/// The JSON value that a text denotes, if it denotes one; whitespace alone
/// denotes none.
pub fn parse_json(text: &str) -> (r: Option<Json>)
    ensures
        match r {
            Some(j) => parsed_json(text@) == Some(j@) && trimmed(text@).len() > 0,
            None => parsed_json(text@) is None,
        },
{
    match read_value(text) {
        Ok(v) => Some(from_value(v)),
        Err(_) => None,
    }
}

impl Json {
    /// The value of a field, where the value is an object that has it.
    pub fn get(&self, key: &str) -> (r: Option<&Json>)
        ensures
            match r {
                Some(j) => j@ == self@.field(key@),
                None => self@.field(key@) == JsonView::Null,
            },
    {
        match self {
            Json::Object(fields) => {
                let ghost all = self@->Object_0;
                let mut i: usize = fields.len();
                assert(all.take(i as int) =~= all);
                while i > 0
                    invariant
                        i <= fields@.len(),
                        self@ == JsonView::Object(all),
                        all == json_view(Json::Object(*fields))->Object_0,
                        lookup(all, key@) == lookup(all.take(i as int), key@),
                    decreases i,
                {
                    i = i - 1;
                    assert(all.take(i + 1).drop_last() =~= all.take(i as int));
                    assert(all[i as int] == (fields@[i as int].0@, json_view(fields@[i as int].1)));
                    if str_eq(fields[i].0.as_str(), key) {
                        return Some(&fields[i].1);
                    }
                }
                None
            },
            _ => None,
        }
    }

    pub fn as_text(&self) -> (r: Option<&String>)
        ensures
            match r {
                Some(t) => self@.as_text() == Some(t@),
                None => self@.as_text() is None,
            },
    {
        match self {
            Json::Text(t) => Some(t),
            _ => None,
        }
    }

    pub fn as_bool(&self) -> (r: Option<bool>)
        ensures
            r == self@.as_bool(),
    {
        match self {
            Json::Bool(b) => Some(*b),
            _ => None,
        }
    }

    pub fn as_i64(&self) -> (r: Option<i64>)
        ensures
            match r {
                Some(n) => self@.as_i64() == Some(n as int),
                None => self@.as_i64() is None,
            },
    {
        match self {
            Json::Number(n) => parse_i64(n.as_str()),
            _ => None,
        }
    }

    pub fn as_u64(&self) -> (r: Option<u64>)
        ensures
            match r {
                Some(n) => self@.as_u64() == Some(n as int),
                None => self@.as_u64() is None,
            },
    {
        match self {
            Json::Number(n) => crate::numerals::parse_digits(n.as_str()),
            _ => None,
        }
    }

    /// The item of an array at an index.
    pub fn item(&self, i: usize) -> (r: Option<&Json>)
        ensures
            match r {
                Some(j) => j@ == self@.item(i as int),
                None => self@.item(i as int) == JsonView::Null,
            },
    {
        match self {
            Json::Array(items) => if i < items.len() {
                assert(self@->Array_0[i as int] == items@[i as int]@);
                Some(&items[i])
            } else {
                None
            },
            _ => None,
        }
    }

    /// The text of a field that holds one.
    pub fn text_field(&self, key: &str) -> (r: Option<String>)
        ensures
            crate::text::opt_text(r) == self@.field(key@).as_text(),
    {
        match self.get(key) {
            Some(j) => match j.as_text() {
                Some(t) => Some(t.clone()),
                None => None,
            },
            None => None,
        }
    }

    pub fn bool_field(&self, key: &str) -> (r: Option<bool>)
        ensures
            r == self@.field(key@).as_bool(),
    {
        match self.get(key) {
            Some(j) => j.as_bool(),
            None => None,
        }
    }

    pub fn u64_field(&self, key: &str) -> (r: Option<u64>)
        ensures
            match r {
                Some(n) => self@.field(key@).as_u64() == Some(n as int),
                None => self@.field(key@).as_u64() is None,
            },
    {
        match self.get(key) {
            Some(j) => j.as_u64(),
            None => None,
        }
    }

    pub fn i64_field(&self, key: &str) -> (r: Option<i64>)
        ensures
            match r {
                Some(n) => self@.field(key@).as_i64() == Some(n as int),
                None => self@.field(key@).as_i64() is None,
            },
    {
        match self.get(key) {
            Some(j) => j.as_i64(),
            None => None,
        }
    }
}

/// The texts among the items of an array, in order.
pub open spec fn texts_among(items: Seq<JsonView>) -> Seq<Seq<char>>
    decreases items.len(),
{
    if items.len() == 0 {
        Seq::empty()
    } else {
        match items.last().as_text() {
            Some(t) => texts_among(items.drop_last()).push(t),
            None => texts_among(items.drop_last()),
        }
    }
}

/// The texts in an array field; `None` where the field is not an array.
pub fn text_items(j: &Json) -> (r: Option<Vec<String>>)
    ensures
        match r {
            Some(v) => j@ matches JsonView::Array(items) && texts(v@) == texts_among(items),
            None => !(j@ is Array),
        },
{
    match j {
        Json::Array(items) => {
            let ghost all = j@->Array_0;
            let mut out: Vec<String> = Vec::new();
            let mut i: usize = 0;
            assert(texts(out@) =~= texts_among(all.take(0)));
            while i < items.len()
                invariant
                    i <= items@.len(),
                    all == json_view(Json::Array(*items))->Array_0,
                    texts(out@) == texts_among(all.take(i as int)),
                decreases items@.len() - i,
            {
                assert(all.take(i + 1).drop_last() =~= all.take(i as int));
                assert(all[i as int] == items@[i as int]@);
                let ghost had = texts(out@);
                match items[i].as_text() {
                    Some(t) => {
                        out.push(t.clone());
                        assert(texts(out@) =~= had.push(t@));
                    },
                    None => {},
                }
                i = i + 1;
            }
            assert(all.take(items@.len() as int) =~= all);
            Some(out)
        },
        _ => None,
    }
}

/// What a `serde_json::Value` holds that is built from a value of this crate:
/// the same, but for the fields of an object, which a map keeps in its own
/// order and only once each, and for numbers, which are kept as they are read.
pub uninterp spec fn stored_json(j: JsonView) -> JsonView;

/// The text that `serde_json::to_string` writes for a value.
pub uninterp spec fn json_text(j: JsonView) -> Seq<char>;

/// The text that `serde_json::to_string_pretty` writes for a value.
pub uninterp spec fn json_pretty(j: JsonView) -> Seq<char>;

/// A value of this crate as a `serde_json::Value`, variant by variant. An
/// array of texts is kept as it is. An object of texts stays one and keeps,
/// for each name, the value that its last field of that name has.
#[verifier::external_body]
fn to_value(j: &Json) -> (r: serde_json::Value)
    ensures
        value_contents(r) == stored_json(j@),
        is_text_array(j@) ==> value_contents(r) == j@,
        is_text_object(j@) ==> is_text_object(value_contents(r)) && forall|k: Seq<char>|
            #[trigger] value_contents(r).field(k) == j@.field(k),
{
    match j {
        Json::Null => serde_json::Value::Null,
        Json::Bool(b) => serde_json::Value::Bool(*b),
        Json::Number(n) => serde_json::from_str(n).unwrap_or_default(),
        Json::Text(t) => serde_json::Value::String(t.clone()),
        Json::Array(a) => serde_json::Value::Array(a.iter().map(to_value).collect()),
        Json::Object(m) => serde_json::Value::Object(m.iter().map(|f| (f.0.clone(), to_value(&f.1))).collect()),
    }
}

/// `serde_json::to_string` on a `Value`, which cannot fail. What it writes for
/// an array or an object of texts reads back as the same value.
#[verifier::external_body]
fn value_text(v: &serde_json::Value) -> (r: String)
    ensures
        r@ == json_text(value_contents(*v)),
        is_text_array(value_contents(*v)) || is_text_object(value_contents(*v)) ==> parsed_json(r@)
            == Some(value_contents(*v)),
{
    serde_json::to_string(v).unwrap_or_default()
}

/// `serde_json::to_string_pretty` on a `Value`, which cannot fail.
#[verifier::external_body]
fn value_pretty(v: &serde_json::Value) -> (r: String)
    ensures
        r@ == json_pretty(value_contents(*v)),
{
    serde_json::to_string_pretty(v).unwrap_or_default()
}

/// A value as JSON text. An array of texts reads back as it was. An object of
/// texts reads back as an object of texts that has the same value for each
/// name.
pub fn write_json(j: &Json) -> (r: String)
    ensures
        r@ == json_text(stored_json(j@)),
        is_text_array(j@) ==> parsed_json(r@) == Some(j@),
        is_text_object(j@) ==> {
            &&& parsed_json(r@) is Some
            &&& is_text_object(parsed_json(r@)->Some_0)
            &&& forall|k: Seq<char>| #[trigger] parsed_json(r@)->Some_0.field(k) == j@.field(k)
        },
{
    let v: serde_json::Value = to_value(j);
    value_text(&v)
}

/// A value as indented JSON text.
pub fn write_pretty(j: &Json) -> (r: String)
    ensures
        r@ == json_pretty(stored_json(j@)),
{
    let v: serde_json::Value = to_value(j);
    value_pretty(&v)
}

/// The text of an optional text as JSON.
pub open spec fn opt_json(o: Option<Seq<char>>) -> JsonView {
    match o {
        Some(t) => JsonView::Text(t),
        None => JsonView::Null,
    }
}

/// An optional number as JSON.
pub open spec fn opt_number(o: Option<i64>) -> JsonView {
    match o {
        Some(n) => JsonView::Number(decimal(n as int)),
        None => JsonView::Null,
    }
}

/// The values in a list.
pub open spec fn views(v: Seq<Json>) -> Seq<JsonView> {
    v.map_values(|j: Json| j@)
}

/// An object under construction.
pub struct ObjectBuilder {
    pub fields: Vec<(String, Json)>,
}

impl ObjectBuilder {
    /// The fields so far, in order.
    pub open spec fn entries(&self) -> Seq<(Seq<char>, JsonView)> {
        self.fields@.map_values(|f: (String, Json)| (f.0@, f.1@))
    }

    pub fn new() -> (r: ObjectBuilder)
        ensures
            r.entries() == Seq::<(Seq<char>, JsonView)>::empty(),
    {
        let r: ObjectBuilder = ObjectBuilder { fields: Vec::new() };
        assert(r.entries() =~= Seq::<(Seq<char>, JsonView)>::empty());
        r
    }

    /// The object with one more field.
    pub fn with(self, key: &str, value: Json) -> (r: ObjectBuilder)
        ensures
            r.entries() == self.entries().push((key@, value@)),
    {
        let mut fields: Vec<(String, Json)> = self.fields;
        let ghost had = self.entries();
        fields.push((key.to_owned(), value));
        let r: ObjectBuilder = ObjectBuilder { fields };
        assert(r.entries() =~= had.push((key@, value@)));
        r
    }

    pub fn with_text(self, key: &str, value: &str) -> (r: ObjectBuilder)
        ensures
            r.entries() == self.entries().push((key@, JsonView::Text(value@))),
    {
        self.with(key, Json::Text(value.to_owned()))
    }

    pub fn with_opt_text(self, key: &str, value: &Option<String>) -> (r: ObjectBuilder)
        ensures
            r.entries() == self.entries().push((key@, opt_json(crate::text::opt_text(*value)))),
    {
        match value {
            Some(t) => self.with(key, Json::Text(t.clone())),
            None => self.with(key, Json::Null),
        }
    }

    pub fn with_bool(self, key: &str, value: bool) -> (r: ObjectBuilder)
        ensures
            r.entries() == self.entries().push((key@, JsonView::Bool(value))),
    {
        self.with(key, Json::Bool(value))
    }

    pub fn with_i64(self, key: &str, value: i64) -> (r: ObjectBuilder)
        ensures
            r.entries() == self.entries().push((key@, JsonView::Number(decimal(value as int)))),
    {
        self.with(key, Json::Number(i64_text(value)))
    }

    pub fn with_opt_i64(self, key: &str, value: Option<i64>) -> (r: ObjectBuilder)
        ensures
            r.entries() == self.entries().push((key@, opt_number(value))),
    {
        match value {
            Some(n) => self.with(key, Json::Number(i64_text(n))),
            None => self.with(key, Json::Null),
        }
    }

    pub fn build(self) -> (r: Json)
        ensures
            r@ == JsonView::Object(self.entries()),
    {
        let r: Json = Json::Object(self.fields);
        assert(r@->Object_0 =~= self.entries());
        r
    }
}

/// An array of values.
pub fn json_array(items: Vec<Json>) -> (r: Json)
    ensures
        r@ == JsonView::Array(items@.map_values(|j: Json| j@)),
{
    let r: Json = Json::Array(items);
    assert(r@->Array_0 =~= items@.map_values(|j: Json| j@));
    r
}

/// An array of texts.
pub fn array_of_texts(items: &Vec<String>) -> (r: Json)
    ensures
        r@ == text_array(texts(items@)),
{
    let ghost all = texts(items@).map_values(|t: Seq<char>| JsonView::Text(t));
    let mut out: Vec<Json> = Vec::new();
    let mut i: usize = 0;
    while i < items.len()
        invariant
            i <= items@.len(),
            all == texts(items@).map_values(|t: Seq<char>| JsonView::Text(t)),
            out@.map_values(|j: Json| j@) == all.take(i as int),
        decreases items@.len() - i,
    {
        let ghost had = out@.map_values(|j: Json| j@);
        out.push(Json::Text(items[i].clone()));
        assert(out@.map_values(|j: Json| j@) =~= had.push(all[i as int]));
        i = i + 1;
        assert(out@.map_values(|j: Json| j@) =~= all.take(i as int));
    }
    assert(all.take(all.len() as int) =~= all);
    json_array(out)
}

/// The JSON text of an array of texts, which reads back as that array.
pub fn array_text(items: &Vec<String>) -> (r: String)
    ensures
        r@ == json_texts(texts(items@)),
        parsed_json(r@) == Some(text_array(texts(items@))),
{
    let j: Json = array_of_texts(items);
    write_json(&j)
}

/// The texts of an array of texts.
pub fn text_list(j: &Json) -> (r: Option<Vec<String>>)
    ensures
        match r {
            Some(v) => is_text_array(j@) && texts(v@) == array_texts(j@),
            None => !is_text_array(j@),
        },
{
    match j {
        Json::Array(items) => {
            let ghost all = j@->Array_0;
            let mut out: Vec<String> = Vec::new();
            let mut i: usize = 0;
            while i < items.len()
                invariant
                    i <= items@.len(),
                    j@ == JsonView::Array(all),
                    all == json_view(Json::Array(*items))->Array_0,
                    forall|k: int| 0 <= k < i ==> (#[trigger] all[k]) is Text,
                    texts(out@) == array_texts(j@).take(i as int),
                decreases items@.len() - i,
            {
                assert(all[i as int] == items@[i as int]@);
                let ghost had = texts(out@);
                match items[i].as_text() {
                    Some(t) => {
                        out.push(t.clone());
                        assert(texts(out@) =~= had.push(t@));
                        assert(array_texts(j@)[i as int] == t@);
                    },
                    None => {
                        return None;
                    },
                }
                i = i + 1;
                assert(texts(out@) =~= array_texts(j@).take(i as int));
            }
            assert(texts(out@) =~= array_texts(j@));
            Some(out)
        },
        _ => None,
    }
}

/// The names and texts in a list of pairs.
pub open spec fn pair_texts(v: Seq<(String, String)>) -> Seq<(Seq<char>, Seq<char>)> {
    v.map_values(|p: (String, String)| (p.0@, p.1@))
}

/// The names and texts of an object whose values are texts.
pub fn text_entries(j: &Json) -> (r: Option<Vec<(String, String)>>)
    ensures
        match r {
            Some(v) => is_text_object(j@) && pair_texts(v@) == object_texts(j@),
            None => !is_text_object(j@),
        },
{
    match j {
        Json::Object(fields) => {
            let ghost all = j@->Object_0;
            let mut out: Vec<(String, String)> = Vec::new();
            let mut i: usize = 0;
            while i < fields.len()
                invariant
                    i <= fields@.len(),
                    j@ == JsonView::Object(all),
                    all == json_view(Json::Object(*fields))->Object_0,
                    forall|k: int| 0 <= k < i ==> (#[trigger] all[k]).1 is Text,
                    pair_texts(out@) == object_texts(j@).take(i as int),
                decreases fields@.len() - i,
            {
                assert(all[i as int] == (fields@[i as int].0@, fields@[i as int].1@));
                let ghost had = pair_texts(out@);
                match fields[i].1.as_text() {
                    Some(t) => {
                        out.push((fields[i].0.clone(), t.clone()));
                        assert(pair_texts(out@) =~= had.push((all[i as int].0, t@)));
                        assert(object_texts(j@)[i as int] == (all[i as int].0, t@));
                    },
                    None => {
                        return None;
                    },
                }
                i = i + 1;
                assert(pair_texts(out@) =~= object_texts(j@).take(i as int));
            }
            assert(pair_texts(out@) =~= object_texts(j@));
            Some(out)
        },
        _ => None,
    }
}

/// A copy of a value.
pub fn copy_json(j: &Json) -> (r: Json)
    ensures
        r@ == j@,
    decreases *j,
{
    match j {
        Json::Null => Json::Null,
        Json::Bool(b) => Json::Bool(*b),
        Json::Number(n) => Json::Number(n.clone()),
        Json::Text(t) => Json::Text(t.clone()),
        Json::Array(items) => {
            let mut out: Vec<Json> = Vec::new();
            let mut i: usize = 0;
            while i < items.len()
                invariant
                    i <= items@.len(),
                    *j == Json::Array(*items),
                    out@.len() == i,
                    forall|k: int| 0 <= k < i ==> (#[trigger] out@[k])@ == items@[k]@,
                decreases items@.len() - i,
            {
                assert(*items == j->Array_0);
                assert(decreases_to!(*j => j->Array_0));
                assert(decreases_to!(*items => items[i as int]));
                let item: Json = copy_json(&items[i]);
                out.push(item);
                i = i + 1;
            }
            let r: Json = Json::Array(out);
            assert(r@->Array_0 =~= j@->Array_0);
            r
        },
        Json::Object(fields) => {
            let mut out: Vec<(String, Json)> = Vec::new();
            let mut i: usize = 0;
            while i < fields.len()
                invariant
                    i <= fields@.len(),
                    *j == Json::Object(*fields),
                    out@.len() == i,
                    forall|k: int|
                        0 <= k < i ==> (#[trigger] out@[k]).0@ == fields@[k].0@ && out@[k].1@
                            == fields@[k].1@,
                decreases fields@.len() - i,
            {
                assert(*fields == j->Object_0);
                assert(decreases_to!(*j => j->Object_0));
                assert(decreases_to!(*fields => fields[i as int]));
                assert(decreases_to!(fields[i as int] => fields[i as int].1));
                let value: Json = copy_json(&fields[i].1);
                out.push((fields[i].0.clone(), value));
                i = i + 1;
            }
            let r: Json = Json::Object(out);
            assert(r@->Object_0 =~= j@->Object_0);
            r
        },
    }
}

/// Which fields have another name.
pub open spec fn named_otherwise(key: Seq<char>) -> spec_fn((Seq<char>, JsonView)) -> bool {
    |f: (Seq<char>, JsonView)| f.0 != key
}

/// An object with a field set, in place of any of that name.
pub open spec fn with_field(
    fields: Seq<(Seq<char>, JsonView)>,
    key: Seq<char>,
    value: JsonView,
) -> Seq<(Seq<char>, JsonView)> {
    fields.filter(named_otherwise(key)).push((key, value))
}

/// A value with a field set. Nothing becomes an object with that field alone;
/// there is no such value for anything but an object or nothing.
pub open spec fn set_field(j: JsonView, key: Seq<char>, value: JsonView) -> Option<JsonView> {
    match j {
        JsonView::Object(fields) => Some(JsonView::Object(with_field(fields, key, value))),
        JsonView::Null => Some(JsonView::Object(seq![(key, value)])),
        _ => None,
    }
}

/// A copy of a value with a text field set.
pub fn with_text(j: &Json, key: &str, value: &str) -> (r: Option<Json>)
    ensures
        match r {
            Some(n) => set_field(j@, key@, JsonView::Text(value@)) == Some(n@),
            None => set_field(j@, key@, JsonView::Text(value@)) is None,
        },
{
    match j {
        Json::Object(fields) => {
            let ghost all = j@->Object_0;
            let ghost pred = named_otherwise(key@);
            let mut b: ObjectBuilder = ObjectBuilder::new();
            let mut i: usize = 0;
            assert(all.take(0).filter(pred) =~= Seq::<(Seq<char>, JsonView)>::empty()) by {
                reveal(Seq::filter);
            }
            while i < fields.len()
                invariant
                    i <= fields@.len(),
                    pred == named_otherwise(key@),
                    all == json_view(Json::Object(*fields))->Object_0,
                    b.entries() == all.take(i as int).filter(pred),
                decreases fields@.len() - i,
            {
                proof {
                    assert(all.take(i + 1).drop_last() =~= all.take(i as int));
                    assert(all[i as int] == (fields@[i as int].0@, fields@[i as int].1@));
                    crate::text::lemma_filter_last(all.take(i + 1), pred);
                }
                if !str_eq(fields[i].0.as_str(), key) {
                    let value: Json = copy_json(&fields[i].1);
                    b = b.with(fields[i].0.as_str(), value);
                }
                i = i + 1;
            }
            assert(all.take(all.len() as int) =~= all);
            Some(b.with_text(key, value).build())
        },
        Json::Null => {
            let b: ObjectBuilder = ObjectBuilder::new().with_text(key, value);
            assert(b.entries() =~= seq![(key@, JsonView::Text(value@))]);
            Some(b.build())
        },
        _ => None,
    }
}

/// The field that was set has its value, and every other field the value that
/// it had.
pub proof fn law_set_field(j: JsonView, key: Seq<char>, value: JsonView, other: Seq<char>)
    requires
        set_field(j, key, value) is Some,
    ensures
        set_field(j, key, value)->Some_0.field(key) == value,
        other != key ==> set_field(j, key, value)->Some_0.field(other) == j.field(other),
{
    match j {
        JsonView::Object(fields) => {
            let now = with_field(fields, key, value);
            assert(now.drop_last() =~= fields.filter(named_otherwise(key)));
            if other != key {
                lemma_lookup_filtered(fields, key, other);
                assert(now.last().0 == key);
                assert(lookup(now, other) == lookup(now.drop_last(), other));
            }
        },
        _ => {
            let now = seq![(key, value)];
            assert(now.drop_last() =~= Seq::<(Seq<char>, JsonView)>::empty());
            assert(now.last() == (key, value));
            if other != key {
                assert(lookup(now, other) == lookup(now.drop_last(), other));
            }
        },
    }
}

proof fn lemma_lookup_filtered(
    fields: Seq<(Seq<char>, JsonView)>,
    key: Seq<char>,
    other: Seq<char>,
)
    requires
        other != key,
    ensures
        lookup(fields.filter(named_otherwise(key)), other) == lookup(fields, other),
    decreases fields.len(),
{
    let pred = named_otherwise(key);
    if fields.len() == 0 {
        reveal(Seq::filter);
    } else {
        crate::text::lemma_filter_last(fields, pred);
        lemma_lookup_filtered(fields.drop_last(), key, other);
        let kept = fields.filter(pred);
        let before = fields.drop_last().filter(pred);
        if pred(fields.last()) {
            assert(kept.drop_last() =~= before);
        }
    }
}

proof fn lemma_lookup(fields: Seq<(Seq<char>, JsonView)>, key: Seq<char>)
    ensures
        lookup(fields, key) == JsonView::Null || exists|i: int|
            0 <= i < fields.len() && (#[trigger] fields[i]).0 == key && fields[i].1 == lookup(
                fields,
                key,
            ),
        forall|i: int|
            0 <= i < fields.len() && (#[trigger] fields[i]).0 == key && (forall|k: int|
                i < k < fields.len() ==> (#[trigger] fields[k]).0 != key) ==> lookup(fields, key)
                == fields[i].1,
        (forall|k: int| 0 <= k < fields.len() ==> (#[trigger] fields[k]).0 != key) ==> lookup(
            fields,
            key,
        ) == JsonView::Null,
    decreases fields.len(),
{
    if fields.len() > 0 {
        let n = fields.len() - 1;
        let rest = fields.drop_last();
        lemma_lookup(rest, key);
        if fields.last().0 == key {
            assert(fields[n].0 == key);
        } else {
            if lookup(rest, key) != JsonView::Null {
                let i = choose|i: int|
                    0 <= i < rest.len() && (#[trigger] rest[i]).0 == key && rest[i].1 == lookup(
                        rest,
                        key,
                    );
                assert(fields[i] == rest[i]);
            }
            assert forall|i: int|
                0 <= i < fields.len() && (#[trigger] fields[i]).0 == key && (forall|k: int|
                    i < k < fields.len() ==> (#[trigger] fields[k]).0 != key) implies lookup(
                fields,
                key,
            ) == fields[i].1 by {
                assert(rest[i] == fields[i]);
                assert forall|k: int| i < k < rest.len() implies (#[trigger] rest[k]).0 != key by {
                    assert(fields[k] == rest[k]);
                }
            }
            if forall|k: int| 0 <= k < fields.len() ==> (#[trigger] fields[k]).0 != key {
                assert forall|k: int| 0 <= k < rest.len() implies (#[trigger] rest[k]).0 != key by {
                    assert(fields[k] == rest[k]);
                }
            }
        }
    }
}

/// A field is found by its name, the last of several; a name that no field has,
/// and a value that is no object, give nothing.
pub proof fn law_fields_are_found_by_name(j: &Json, key: &str, r: Option<&Json>, i: int)
    requires
        call_ensures(Json::get, (j, key), r),
    ensures
        !(j is Object) ==> r is None || r->Some_0@ == JsonView::Null,
        j matches Json::Object(fields) ==> {
            &&& (forall|k: int| 0 <= k < fields@.len() ==> (#[trigger] fields@[k]).0@ != key@) ==> r
                is None || r->Some_0@ == JsonView::Null
            &&& 0 <= i < fields@.len() && fields@[i].0@ == key@ && (forall|k: int|
                i < k < fields@.len() ==> (#[trigger] fields@[k]).0@ != key@) && fields@[i].1@
                != JsonView::Null ==> r is Some && r->Some_0@ == fields@[i].1@
        },
{
    match *j {
        Json::Object(fields) => {
            let v = j@->Object_0;
            lemma_lookup(v, key@);
            assert forall|k: int| 0 <= k < v.len() implies (#[trigger] v[k]) == (
                fields@[k].0@,
                fields@[k].1@,
            ) by {}
            if 0 <= i < fields@.len() && fields@[i].0@ == key@ {
                assert(v[i].0 == key@);
            }
        },
        _ => {},
    }
}

/// What a value holds as text, as a truth value and as a number: exactly what
/// it is, and nothing where it is of another kind.
pub proof fn law_values_as_what_they_are(
    j: &Json,
    text: Option<&String>,
    flag: Option<bool>,
    signed: Option<i64>,
    plain: Option<u64>,
    n: i64,
)
    requires
        call_ensures(Json::as_text, (j,), text),
        call_ensures(Json::as_bool, (j,), flag),
        call_ensures(Json::as_i64, (j,), signed),
        call_ensures(Json::as_u64, (j,), plain),
    ensures
        match *j {
            Json::Text(t) => text is Some && text->Some_0@ == t@,
            _ => text is None,
        },
        match *j {
            Json::Bool(b) => flag == Some(b),
            _ => flag is None,
        },
        !(j is Number) ==> signed is None && plain is None,
        j matches Json::Number(t) && t@ == decimal(n as int) ==> signed == Some(n) && (n >= 0 ==> plain
            == Some(n as u64)),
{
    if j is Number && j->Number_0@ == decimal(n as int) {
        law_decimal_round_trip(n as int);
        if n >= 0 {
            lemma_decimal_nat_value(n as nat);
        }
    }
}

/// The fields of a value by their names, read as text, truth value or number,
/// are what the field itself gives.
pub proof fn law_fields_read(
    j: &Json,
    key: &str,
    field: Option<&Json>,
    text: Option<String>,
    flag: Option<bool>,
    signed: Option<i64>,
    plain: Option<u64>,
)
    requires
        call_ensures(Json::get, (j, key), field),
        call_ensures(Json::text_field, (j, key), text),
        call_ensures(Json::bool_field, (j, key), flag),
        call_ensures(Json::i64_field, (j, key), signed),
        call_ensures(Json::u64_field, (j, key), plain),
    ensures
        field is None ==> text is None && flag is None && signed is None && plain is None,
        field matches Some(f) ==> {
            &&& match f@ {
                JsonView::Text(t) => text is Some && text->Some_0@ == t,
                _ => text is None,
            }
            &&& match f@ {
                JsonView::Bool(b) => flag == Some(b),
                _ => flag is None,
            }
            &&& !(f@ is Number) ==> signed is None && plain is None
        },
{
}

proof fn lemma_texts_among(a: Seq<JsonView>, b: Seq<JsonView>)
    ensures
        texts_among(a + b) == texts_among(a) + texts_among(b),
    decreases b.len(),
{
    if b.len() == 0 {
        assert(a + b =~= a);
        assert(texts_among(a) + Seq::<Seq<char>>::empty() =~= texts_among(a));
    } else {
        assert((a + b).drop_last() =~= a + b.drop_last());
        lemma_texts_among(a, b.drop_last());
        if b.last().as_text() is Some {
            assert(texts_among(a) + texts_among(b) =~= (texts_among(a) + texts_among(b.drop_last())).push(
                b.last().as_text()->Some_0,
            ));
        }
    }
}

/// The texts of an array, one after the other; what is no text is passed over.
pub proof fn law_texts_of_an_array(a: &Json, b: &Json, r: Option<Vec<String>>, s: Option<Vec<String>>, x: Json)
    requires
        call_ensures(text_items, (a,), r),
        call_ensures(text_items, (b,), s),
    ensures
        r is Some <==> a is Array,
        a matches Json::Array(items) ==> (items@.len() == 0 ==> r->Some_0@.len() == 0),
        a matches Json::Array(items) && b matches Json::Array(more) && more@ == items@.push(x)
            ==> texts(s->Some_0@) == match x {
            Json::Text(t) => texts(r->Some_0@).push(t@),
            _ => texts(r->Some_0@),
        },
{
    if a is Array && b is Array && b->Array_0@ == a->Array_0@.push(x) {
        let v = a@->Array_0;
        let w = b@->Array_0;
        assert(w.drop_last() =~= v);
        assert(w.last() == x@);
    }
    if a is Array && a->Array_0@.len() == 0 {
        assert(a@->Array_0.len() == 0);
        assert(texts(r->Some_0@).len() == 0);
    }
}

/// A field that is set is found under its name, and no other field changes.
/// Only an object, or nothing at all, can be given a field.
pub proof fn law_fields_are_set(j: &Json, key: &str, value: &str, other: Seq<char>, r: Option<Json>)
    requires
        call_ensures(with_text, (j, key, value), r),
    ensures
        r is Some <==> j is Object || j is Null,
        r matches Some(n) ==> n is Object && n@.field(key@) == JsonView::Text(value@) && (other
            != key@ ==> n@.field(other) == j@.field(other)),
{
    if set_field(j@, key@, JsonView::Text(value@)) is Some {
        law_set_field(j@, key@, JsonView::Text(value@), other);
    }
}

/// What an object is built from is what it holds, each value under its name.
pub proof fn law_built_objects(
    b: ObjectBuilder,
    key: &str,
    value: Json,
    c: ObjectBuilder,
    before: Json,
    r: Json,
    other: Seq<char>,
)
    requires
        call_ensures(ObjectBuilder::with, (b, key, value), c),
        call_ensures(ObjectBuilder::build, (b,), before),
        call_ensures(ObjectBuilder::build, (c,), r),
    ensures
        r@.field(key@) == value@,
        other != key@ ==> r@.field(other) == before@.field(other),
{
    assert(c.entries().drop_last() =~= b.entries());
}

/// Each kind of value is written as what it is.
pub proof fn law_built_values(
    b: ObjectBuilder,
    key: &str,
    text: &str,
    maybe: &Option<String>,
    flag: bool,
    number: i64,
    some_number: Option<i64>,
    r: Seq<ObjectBuilder>,
)
    requires
        r.len() == 5,
        call_ensures(ObjectBuilder::with_text, (b, key, text), r[0]),
        call_ensures(ObjectBuilder::with_opt_text, (b, key, maybe), r[1]),
        call_ensures(ObjectBuilder::with_bool, (b, key, flag), r[2]),
        call_ensures(ObjectBuilder::with_i64, (b, key, number), r[3]),
        call_ensures(ObjectBuilder::with_opt_i64, (b, key, some_number), r[4]),
    ensures
        forall|i: int| 0 <= i < 5 ==> (#[trigger] r[i]).entries().drop_last() == b.entries(),
        r[0].entries().last() == (key@, JsonView::Text(text@)),
        r[1].entries().last() == (key@, match *maybe {
            Some(t) => JsonView::Text(t@),
            None => JsonView::Null,
        }),
        r[2].entries().last() == (key@, JsonView::Bool(flag)),
        r[3].entries().last() == (key@, JsonView::Number(decimal(number as int))),
        r[4].entries().last() == (key@, match some_number {
            Some(n) => JsonView::Number(decimal(n as int)),
            None => JsonView::Null,
        }),
{
    assert forall|i: int| 0 <= i < 5 implies (#[trigger] r[i]).entries().drop_last() == b.entries() by {
        assert(i == 0 || i == 1 || i == 2 || i == 3 || i == 4);
        assert(r[i].entries().drop_last() =~= b.entries());
    }
}

/// A list of texts reads back as the texts it was written from, and only a list
/// of texts is read as one.
pub proof fn law_lists_of_texts(items: &Vec<String>, j: Json, r: Option<Vec<String>>)
    requires
        call_ensures(array_of_texts, (items,), j),
        call_ensures(text_list, (&j,), r),
    ensures
        r is Some,
        texts(r->Some_0@) == texts(items@),
        j matches Json::Array(all) && all@.len() == items@.len() && forall|i: int|
            0 <= i < items@.len() ==> (#[trigger] all@[i])@ == JsonView::Text(items@[i]@),
{
    let v = text_array(texts(items@))->Array_0;
    assert(j is Array);
    assert(j@->Array_0 == v);
    assert(array_texts(j@) =~= texts(items@));
    let all = j->Array_0;
    assert(all@.len() == j@->Array_0.len());
    assert forall|i: int| 0 <= i < items@.len() implies (#[trigger] all@[i])@ == JsonView::Text(
        items@[i]@,
    ) by {
        assert(j@->Array_0[i] == all@[i]@);
        assert(v[i] == JsonView::Text(texts(items@)[i]));
    }
}

/// A text is read as what it says, and not at all where it cannot be or is
/// blank; an array is taken apart by position, and put together in order.
pub proof fn law_arrays_and_texts(
    text: &str,
    r: Option<Json>,
    bare: String,
    j: &Json,
    i: usize,
    item: Option<&Json>,
    items: Vec<Json>,
    array: Json,
    copy: Json,
)
    requires
        call_ensures(parse_json, (text,), r),
        call_ensures(crate::text::trim, (text,), bare),
        call_ensures(Json::item, (j, i), item),
        call_ensures(json_array, (items,), array),
        call_ensures(copy_json, (j,), copy),
    ensures
        r is Some <==> parsed_json(text@) is Some,
        r matches Some(v) ==> parsed_json(text@) == Some(v@),
        bare@.len() == 0 ==> r is None,
        j matches Json::Array(v) ==> (i < v@.len() && v@[i as int]@ != JsonView::Null ==> item is Some
            && item->Some_0@ == v@[i as int]@),
        !(j is Array) ==> item is None || item->Some_0@ == JsonView::Null,
        array@ is Array && array@->Array_0.len() == items@.len() && forall|k: int|
            0 <= k < items@.len() ==> (#[trigger] array@->Array_0[k]) == items@[k]@,
        copy@ == j@,
{
}

/// An object of texts is read entry by entry; any other value is not read.
pub proof fn law_entries_of_texts(j: &Json, r: Option<Vec<(String, String)>>, i: int)
    requires
        call_ensures(text_entries, (j,), r),
    ensures
        r matches Some(v) ==> (j matches Json::Object(fields) && v@.len() == fields@.len() && (0 <= i
            < v@.len() ==> v@[i].0@ == fields@[i].0@ && JsonView::Text(v@[i].1@)
            == fields@[i].1@)),
        !(j is Object) ==> r is None,
        j matches Json::Object(fields) ==> (0 <= i < fields@.len() && !(fields@[i].1@ is Text) ==> r
            is None),
{
    match *j {
        Json::Object(fields) => {
            let v = j@->Object_0;
            assert(v.len() == fields@.len());
            if 0 <= i < fields@.len() {
                assert(v[i] == (fields@[i].0@, fields@[i].1@));
            }
            if r is Some {
                let p = pair_texts(r->Some_0@);
                assert(p.len() == r->Some_0@.len());
                if 0 <= i < p.len() {
                    assert(p[i] == (r->Some_0@[i].0@, r->Some_0@[i].1@));
                    assert(object_texts(j@)[i] == (v[i].0, v[i].1->Text_0));
                    assert(v[i].1 is Text);
                }
            }
        },
        _ => {},
    }
}

/// An array of texts is read item by item; any other value is not read, be it
/// the first item or the last that is no text. There is nothing past the end.
pub proof fn law_what_a_list_of_texts_is(j: &Json, r: Option<Vec<String>>, i: int, n: usize, item: Option<&Json>)
    requires
        call_ensures(text_list, (j,), r),
        call_ensures(Json::item, (j, n), item),
    ensures
        !(j is Array) ==> r is None,
        j matches Json::Array(items) ==> (0 <= i < items@.len() && !(items@[i]@ is Text) ==> r is None),
        j matches Json::Array(items) ==> ((forall|k: int|
            0 <= k < items@.len() ==> (#[trigger] items@[k])@ is Text) ==> r is Some),
        r matches Some(v) ==> (j matches Json::Array(items) && v@.len() == items@.len() && (0 <= i
            < v@.len() ==> items@[i]@ == JsonView::Text(v@[i]@))),
        j matches Json::Array(items) ==> (n >= items@.len() ==> item is None || item->Some_0@
            == JsonView::Null),
{
    match *j {
        Json::Array(items) => {
            let v = j@->Array_0;
            assert(v.len() == items@.len());
            assert forall|k: int| 0 <= k < items@.len() implies #[trigger] v[k] == items@[k]@ by {}
            if 0 <= i < items@.len() {
                assert(v[i] == items@[i]@);
            }
            if forall|k: int| 0 <= k < items@.len() ==> (#[trigger] items@[k])@ is Text {
                assert forall|k: int| 0 <= k < v.len() implies (#[trigger] v[k]) is Text by {
                    assert(items@[k]@ is Text);
                }
            }
            if r is Some {
                let t = texts(r->Some_0@);
                assert(t.len() == r->Some_0@.len());
                if 0 <= i < t.len() {
                    assert(t[i] == r->Some_0@[i]@);
                    assert(array_texts(j@)[i] == v[i]->Text_0);
                    assert(v[i] is Text);
                }
            }
        },
        _ => {},
    }
}

} // verus!
