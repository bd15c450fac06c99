//! JSON values: parsing and printing through serde_json, and reading a value's parts.
use vstd::prelude::*;

use crate::text::same_text;

verus! {

/// `serde_json::Value`, carried only between the parser or printer and [`Json`].
#[verifier::external_type_specification]
#[verifier::external_body]
pub struct ExValue(serde_json::Value);

/// `serde_json::Number`, carried unread.
#[verifier::external_type_specification]
#[verifier::external_body]
pub struct ExNumber(serde_json::Number);

/// A JSON value. The fields of an object stand in the order in which they are walked.
#[derive(Debug, PartialEq)]
pub enum Json {
    Null,
    Bool(bool),
    Number(serde_json::Number),
    Text(String),
    Array(Vec<Json>),
    Object(Vec<(String, Json)>),
}

/// A [`Json`] with its texts and lists as sequences.
pub enum JsonView {
    Null,
    Bool(bool),
    Number(serde_json::Number),
    Text(Seq<char>),
    Array(Seq<JsonView>),
    Object(Seq<(Seq<char>, JsonView)>),
}

/// What a `serde_json::Value` holds.
pub uninterp spec fn json_content(value: serde_json::Value) -> JsonView;

/// What `serde_json::from_str` reads from a text; `None` where it reports an error.
pub uninterp spec fn parsed_json(text: Seq<char>) -> Option<JsonView>;

/// The `serde_json::Value` that is built of this content.
pub uninterp spec fn value_of(content: JsonView) -> serde_json::Value;

/// What `Value::to_string` prints for a value.
pub uninterp spec fn value_text(value: serde_json::Value) -> Seq<char>;

/// The compact JSON text that is printed for this content.
pub open spec fn json_text(content: JsonView) -> Seq<char> {
    value_text(value_of(content))
}

/// The number that serde_json makes of an unsigned integer.
pub uninterp spec fn integer_number(n: u64) -> serde_json::Number;

/// `serde_json::from_str` into a `Value`: what it reads, or that it reports an error, is a function
/// of the text. Which texts are JSON is not stated.
#[verifier::external_body]
fn parse_value(text: &str) -> (r: Option<serde_json::Value>)
    ensures
        match r {
            Some(value) => parsed_json(text@) == Some(json_content(value)),
            None => parsed_json(text@) is None,
        },
{
    serde_json::from_str::<serde_json::Value>(text).ok()
}

/// Takes a `serde_json::Value` apart, variant by variant; the result holds what the value holds.
#[verifier::external_body]
fn from_value(value: serde_json::Value) -> (r: Json)
    ensures
        r.content() == json_content(value),
{
    match value {
        serde_json::Value::Null => Json::Null,
        serde_json::Value::Bool(b) => Json::Bool(b),
        serde_json::Value::Number(n) => Json::Number(n),
        serde_json::Value::String(s) => Json::Text(s),
        serde_json::Value::Array(items) => Json::Array(items.into_iter().map(from_value).collect()),
        serde_json::Value::Object(fields) => {
            Json::Object(fields.into_iter().map(|(k, v)| (k, from_value(v))).collect())
        },
    }
}

/// Builds the `serde_json::Value` of a [`Json`], variant by variant. The value is a function of the
/// content. That it holds the same content is not stated: an object keeps the last of several fields
/// with one name, and walks its fields in an order of its own.
#[verifier::external_body]
fn to_value(json: Json) -> (r: serde_json::Value)
    ensures
        r == value_of(json.content()),
{
    match json {
        Json::Null => serde_json::Value::Null,
        Json::Bool(b) => serde_json::Value::Bool(b),
        Json::Number(n) => serde_json::Value::Number(n),
        Json::Text(s) => serde_json::Value::String(s),
        Json::Array(items) => serde_json::Value::Array(items.into_iter().map(to_value).collect()),
        Json::Object(fields) => {
            serde_json::Value::Object(fields.into_iter().map(|(k, v)| (k, to_value(v))).collect())
        },
    }
}

/// `serde_json::Number::from` of an unsigned integer.
#[verifier::external_body]
fn number_of(n: u64) -> (r: serde_json::Number)
    ensures
        r == integer_number(n),
{
    serde_json::Number::from(n)
}

impl Json {
    /// The value with its texts and lists as sequences.
    pub open spec fn content(&self) -> JsonView
        decreases self,
    {
        match self {
            Json::Null => JsonView::Null,
            Json::Bool(b) => JsonView::Bool(*b),
            Json::Number(n) => JsonView::Number(*n),
            Json::Text(s) => JsonView::Text(s@),
            Json::Array(items) => JsonView::Array(
                Seq::new(
                    items@.len(),
                    |i: int|
                        if 0 <= i < items@.len() {
                            items@[i].content()
                        } else {
                            JsonView::Null
                        },
                ),
            ),
            Json::Object(fields) => JsonView::Object(
                Seq::new(
                    fields@.len(),
                    |i: int|
                        if 0 <= i < fields@.len() {
                            (fields@[i].0@, fields@[i].1.content())
                        } else {
                            (Seq::empty(), JsonView::Null)
                        },
                ),
            ),
        }
    }
}

/// What is seen through an optional reference.
pub open spec fn seen(value: Option<&Json>) -> Option<JsonView> {
    match value {
        Some(json) => Some(json.content()),
        None => None,
    }
}

/// The value of the first field with this name.
pub open spec fn first_field(fields: Seq<(Seq<char>, JsonView)>, key: Seq<char>) -> Option<JsonView>
    decreases fields.len(),
{
    if fields.len() == 0 {
        None
    } else if fields[0].0 == key {
        Some(fields[0].1)
    } else {
        first_field(fields.skip(1), key)
    }
}

/// The member of an object; `None` for any other value.
pub open spec fn member_of(value: JsonView, key: Seq<char>) -> Option<JsonView> {
    match value {
        JsonView::Object(fields) => first_field(fields, key),
        _ => None,
    }
}

/// The member of an optional value.
pub open spec fn within_of(value: Option<JsonView>, key: Seq<char>) -> Option<JsonView> {
    match value {
        Some(v) => member_of(v, key),
        None => None,
    }
}

/// The text of an optional string value.
pub open spec fn text_in(value: Option<JsonView>) -> Option<Seq<char>> {
    match value {
        Some(JsonView::Text(s)) => Some(s),
        _ => None,
    }
}

/// The items of an optional array value.
pub open spec fn items_in(value: Option<JsonView>) -> Option<Seq<JsonView>> {
    match value {
        Some(JsonView::Array(items)) => Some(items),
        _ => None,
    }
}

/// Reads a text as JSON; `None` where it is none.
pub fn parse(text: &str) -> (r: Option<Json>)
    ensures
        match r {
            Some(json) => parsed_json(text@) == Some(json.content()),
            None => parsed_json(text@) is None,
        },
{
    match parse_value(text) {
        Some(value) => Some(from_value(value)),
        None => None,
    }
}

/// `Value::to_string`: the compact JSON text of a value.
#[verifier::external_body]
fn print_value(value: serde_json::Value) -> (r: String)
    ensures
        r@ == value_text(value),
{
    value.to_string()
}

/// The compact JSON text of a value.
pub fn render(json: Json) -> (r: String)
    ensures
        r@ == json_text(json.content()),
{
    print_value(to_value(json))
}

/// The JSON number of an unsigned integer.
pub fn integer(n: u64) -> (r: Json)
    ensures
        r.content() == JsonView::Number(integer_number(n)),
{
    Json::Number(number_of(n))
}

/// A JSON string.
pub fn string(text: &str) -> (r: Json)
    ensures
        r.content() == JsonView::Text(text@),
{
    Json::Text(text.to_owned())
}

/// The member of an object; `None` for any other value.
pub fn member<'a>(value: &'a Json, key: &str) -> (r: Option<&'a Json>)
    ensures
        seen(r) == member_of(value.content(), key@),
{
    match value {
        Json::Object(fields) => {
            let ghost all = value.content()->Object_0;
            let mut i: usize = 0;
            assert(all.skip(0) =~= all);
            while i < fields.len()
                invariant
                    i <= fields@.len(),
                    value.content() == JsonView::Object(all),
                    all.len() == fields@.len(),
                    forall|j: int|
                        0 <= j < fields@.len() ==> #[trigger] all[j] == (
                            fields@[j].0@,
                            fields@[j].1.content(),
                        ),
                    first_field(all, key@) == first_field(all.skip(i as int), key@),
                decreases fields@.len() - i,
            {
                assert(all.skip(i as int)[0] == all[i as int]);
                if same_text(fields[i].0.as_str(), key) {
                    return Some(&fields[i].1);
                }
                assert(all.skip(i as int).skip(1) =~= all.skip(i + 1));
                i = i + 1;
            }
            None
        },
        _ => None,
    }
}

/// The member of an object, moved out of it; `None` for any other value.
pub fn into_member(value: Json, key: &str) -> (r: Option<Json>)
    ensures
        (match r {
            Some(json) => Some(json.content()),
            None => None,
        }) == member_of(value.content(), key@),
{
    match value {
        Json::Object(fields) => {
            let mut fields = fields;
            let ghost all = value.content()->Object_0;
            let mut i: usize = 0;
            assert(all.skip(0) =~= all);
            while i < fields.len()
                invariant
                    i <= fields@.len(),
                    value.content() == JsonView::Object(all),
                    all.len() == fields@.len(),
                    forall|j: int|
                        0 <= j < fields@.len() ==> #[trigger] all[j] == (
                            fields@[j].0@,
                            fields@[j].1.content(),
                        ),
                    first_field(all, key@) == first_field(all.skip(i as int), key@),
                decreases fields@.len() - i,
            {
                assert(all.skip(i as int)[0] == all[i as int]);
                if same_text(fields[i].0.as_str(), key) {
                    let field = fields.remove(i);
                    return Some(field.1);
                }
                assert(all.skip(i as int).skip(1) =~= all.skip(i + 1));
                i = i + 1;
            }
            None
        },
        _ => None,
    }
}

/// The member of an optional value.
pub fn within<'a>(value: Option<&'a Json>, key: &str) -> (r: Option<&'a Json>)
    ensures
        seen(r) == within_of(seen(value), key@),
{
    match value {
        Some(json) => member(json, key),
        None => None,
    }
}

/// The text of an optional string value.
pub fn as_text<'a>(value: Option<&'a Json>) -> (r: Option<&'a str>)
    ensures
        r is Some <==> text_in(seen(value)) is Some,
        r is Some ==> r->0@ == text_in(seen(value))->0,
{
    match value {
        Some(Json::Text(s)) => Some(s.as_str()),
        _ => None,
    }
}

/// The items of an optional array value.
pub fn as_items<'a>(value: Option<&'a Json>) -> (r: Option<&'a Vec<Json>>)
    ensures
        r is Some <==> items_in(seen(value)) is Some,
        r is Some ==> items_in(seen(value))->0.len() == r->0@.len() && forall|i: int|
            0 <= i < r->0@.len() ==> #[trigger] items_in(seen(value))->0[i] == r->0@[i].content(),
{
    match value {
        Some(Json::Array(items)) => Some(items),
        _ => None,
    }
}

/// The truth value of an optional boolean value, and otherwise false.
pub open spec fn truth_in(value: Option<JsonView>) -> bool {
    value == Some(JsonView::Bool(true))
}

/// The truth value of an optional boolean value, and otherwise false.
pub fn is_true(value: Option<&Json>) -> (r: bool)
    ensures
        r == truth_in(seen(value)),
{
    match value {
        Some(Json::Bool(b)) => *b,
        _ => false,
    }
}

/// The text of an optional string value, and otherwise the empty text.
pub open spec fn text_or_empty(value: Option<JsonView>) -> Seq<char> {
    match text_in(value) {
        Some(s) => s,
        None => Seq::empty(),
    }
}

/// The text of an optional string value, and otherwise the empty text.
pub fn as_text_or_empty(value: Option<&Json>) -> (r: String)
    ensures
        r@ == text_or_empty(seen(value)),
{
    match value {
        Some(Json::Text(s)) => s.clone(),
        _ => String::new(),
    }
}

/// The text of an optional string value, and otherwise a fixed one.
pub open spec fn text_or(value: Option<JsonView>, fallback: Seq<char>) -> Seq<char> {
    match text_in(value) {
        Some(s) => s,
        None => fallback,
    }
}

/// The text of an optional string value, and otherwise a fixed one.
pub fn as_text_or(value: Option<&Json>, fallback: &str) -> (r: String)
    ensures
        r@ == text_or(seen(value), fallback@),
{
    match value {
        Some(Json::Text(s)) => s.clone(),
        _ => fallback.to_owned(),
    }
}

/// The texts among the items, in order.
pub open spec fn texts_among(items: Seq<JsonView>) -> Seq<Seq<char>>
    decreases items.len(),
{
    if items.len() == 0 {
        Seq::empty()
    } else {
        match items.last() {
            JsonView::Text(s) => texts_among(items.drop_last()).push(s),
            _ => texts_among(items.drop_last()),
        }
    }
}

/// The texts among the items of an optional array value, in order; none where it is no array.
pub open spec fn texts_in(value: Option<JsonView>) -> Seq<Seq<char>> {
    match items_in(value) {
        Some(items) => texts_among(items),
        None => Seq::empty(),
    }
}

/// The texts among the items of an optional array value, in order.
pub fn texts(value: Option<&Json>) -> (r: Vec<String>)
    ensures
        r.deep_view() == texts_in(seen(value)),
{
    let mut out: Vec<String> = Vec::new();
    match as_items(value) {
        Some(items) => {
            let ghost all = items_in(seen(value))->0;
            let mut i: usize = 0;
            while i < items.len()
                invariant
                    i <= items@.len(),
                    all.len() == items@.len(),
                    forall|j: int|
                        0 <= j < items@.len() ==> #[trigger] all[j] == items@[j].content(),
                    out.deep_view() == texts_among(all.take(i as int)),
                decreases items@.len() - i,
            {
                proof {
                    assert(all.take(i + 1).drop_last() =~= all.take(i as int));
                    assert(all.take(i + 1).last() == all[i as int]);
                }
                let ghost before = out.deep_view();
                match &items[i] {
                    Json::Text(s) => {
                        out.push(s.clone());
                        assert(out.deep_view() =~= before.push(s@));
                    },
                    _ => {},
                }
                i = i + 1;
            }
            assert(all.take(i as int) =~= all);
        },
        None => {},
    }
    assert(out.deep_view() =~= texts_in(seen(value)));
    out
}

} // verus!
