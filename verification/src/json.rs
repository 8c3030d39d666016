//! JSON values as plain data, with the parser and printer of `serde_json`
//! behind them.

use crate::text::str_eq;
use crate::views::{option_view, views};
use serde_json::Value;
use vstd::prelude::*;
use vstd::utf8::encode_utf8;

verus! {

/// A JSON number, in the three classes the parser tells apart.
#[derive(Debug, PartialEq, Eq)]
pub enum JsonNumber {
    /// A non-negative integer that fits 64 bits.
    PosInt(u64),
    /// A negative integer that fits 64 bits.
    NegInt(i64),
    /// Any other number, kept as its printed decimal text.
    Float(String),
}

/// One `name: value` pair of a JSON object.
#[derive(Debug, PartialEq, Eq)]
pub struct JsonMember {
    pub name: String,
    pub value: Json,
}

/// A JSON value.
#[derive(Debug, PartialEq, Eq)]
pub enum Json {
    Null,
    Bool(bool),
    Number(JsonNumber),
    Text(String),
    Array(Vec<Json>),
    Object(Vec<JsonMember>),
}

/// Mathematical model of a [`JsonNumber`].
pub enum NumberView {
    PosInt(u64),
    NegInt(i64),
    Float(Seq<char>),
}

/// Mathematical model of a [`Json`] value.
pub enum JsonView {
    Null,
    Bool(bool),
    Number(NumberView),
    Text(Seq<char>),
    Array(Seq<JsonView>),
    Object(Seq<(Seq<char>, JsonView)>),
}

impl View for JsonNumber {
    type V = NumberView;

    open spec fn view(&self) -> NumberView {
        match self {
            JsonNumber::PosInt(n) => NumberView::PosInt(*n),
            JsonNumber::NegInt(n) => NumberView::NegInt(*n),
            JsonNumber::Float(t) => NumberView::Float(t@),
        }
    }
}

/// What a [`Json`] value stands for.
pub open spec fn json_view(json: Json) -> JsonView
    decreases json,
{
    match json {
        Json::Null => JsonView::Null,
        Json::Bool(b) => JsonView::Bool(b),
        Json::Number(n) => JsonView::Number(n@),
        Json::Text(t) => JsonView::Text(t@),
        Json::Array(items) => JsonView::Array(
            Seq::new(
                items@.len(),
                |i: int| if 0 <= i < items@.len() {
                    json_view(items@[i])
                } else {
                    JsonView::Null
                },
            ),
        ),
        Json::Object(members) => JsonView::Object(
            Seq::new(
                members@.len(),
                |i: int| if 0 <= i < members@.len() {
                    (members@[i].name@, json_view(members@[i].value))
                } else {
                    (Seq::empty(), JsonView::Null)
                },
            ),
        ),
    }
}

impl View for Json {
    type V = JsonView;

    open spec fn view(&self) -> JsonView {
        json_view(*self)
    }
}

/// The member pairs of `members` by their views, in order.
pub open spec fn member_views(members: Seq<JsonMember>) -> Seq<(Seq<char>, JsonView)> {
    Seq::new(members.len(), |i: int| (members[i].name@, members[i].value@))
}

/// The view of an array is made of the views of its elements.
pub proof fn lemma_array_view(items: Vec<Json>)
    ensures
        Json::Array(items)@ == JsonView::Array(views(items@)),
{
    assert(Json::Array(items)@->Array_0 =~= views(items@));
}

/// The view of an object is made of the names and the views of its members.
pub proof fn lemma_object_view(members: Vec<JsonMember>)
    ensures
        Json::Object(members)@ == JsonView::Object(member_views(members@)),
{
    assert(Json::Object(members)@->Object_0 =~= member_views(members@));
}

/// The value of the first member of `members` that is called `name`.
pub open spec fn find_member(members: Seq<(Seq<char>, JsonView)>, name: Seq<char>) -> Option<
    JsonView,
>
    decreases members.len(),
{
    if members.len() == 0 {
        None
    } else if members[0].0 == name {
        Some(members[0].1)
    } else {
        find_member(members.drop_first(), name)
    }
}

impl JsonView {
    /// The member called `name`, where this is an object that has one.
    pub open spec fn member(self, name: Seq<char>) -> Option<JsonView> {
        match self {
            JsonView::Object(members) => find_member(members, name),
            _ => None,
        }
    }

    /// The elements, where this is an array.
    pub open spec fn elements(self) -> Option<Seq<JsonView>> {
        match self {
            JsonView::Array(items) => Some(items),
            _ => None,
        }
    }

    /// The characters, where this is a string.
    pub open spec fn text(self) -> Option<Seq<char>> {
        match self {
            JsonView::Text(t) => Some(t),
            _ => None,
        }
    }

    /// The truth value, where this is `true` or `false`.
    pub open spec fn truth(self) -> Option<bool> {
        match self {
            JsonView::Bool(b) => Some(b),
            _ => None,
        }
    }

    /// The number, where this is an integer from zero up that fits 64 bits.
    pub open spec fn unsigned(self) -> Option<u64> {
        match self {
            JsonView::Number(NumberView::PosInt(n)) => Some(n),
            _ => None,
        }
    }

    /// The number, where this is an integer that fits 64 bits with a sign.
    pub open spec fn signed(self) -> Option<i64> {
        match self {
            JsonView::Number(NumberView::PosInt(n)) => if n <= i64::MAX as u64 {
                Some(n as i64)
            } else {
                None
            },
            JsonView::Number(NumberView::NegInt(n)) => Some(n),
            _ => None,
        }
    }
}

/// The value that `serde_json` reads from the whole of `bytes`, or `None`
/// where it rejects them.
pub uninterp spec fn json_of_bytes(bytes: Seq<u8>) -> Option<JsonView>;

/// The value that `serde_json` reads from the whole of `text`, taken as its
/// UTF-8 bytes.
pub open spec fn json_of_text(text: Seq<char>) -> Option<JsonView> {
    json_of_bytes(encode_utf8(text))
}

/// The compact text that `serde_json` prints for `value`.
pub uninterp spec fn text_of_json(value: JsonView) -> Seq<char>;

#[verifier::external_type_specification]
#[verifier::external_body]
pub struct ExValue(Value);

/// Copies a `serde_json::Value` into a [`Json`], variant by variant; a
/// number that is neither a `u64` nor an `i64` is kept as the text that
/// `serde_json` prints for it.
#[verifier::external_body]
fn from_value(value: Value) -> Json {
    match value {
        Value::Null => Json::Null,
        Value::Bool(b) => Json::Bool(b),
        Value::Number(n) => Json::Number(match (n.as_u64(), n.as_i64()) {
            (Some(u), _) => JsonNumber::PosInt(u),
            (None, Some(i)) => JsonNumber::NegInt(i),
            (None, None) => JsonNumber::Float(n.to_string()),
        }),
        Value::String(s) => Json::Text(s),
        Value::Array(items) => Json::Array(items.into_iter().map(from_value).collect()),
        Value::Object(map) => Json::Object(
            map.into_iter().map(|(name, v)| JsonMember { name, value: from_value(v) }).collect(),
        ),
    }
}

/// Copies a [`Json`] into a `serde_json::Value`, variant by variant; the
/// text of a [`JsonNumber::Float`] is read back as a number, and is `null`
/// where `serde_json` does not take it for one.
#[verifier::external_body]
fn to_value(json: &Json) -> Value {
    match json {
        Json::Null => Value::Null,
        Json::Bool(b) => Value::Bool(*b),
        Json::Number(JsonNumber::PosInt(u)) => Value::from(*u),
        Json::Number(JsonNumber::NegInt(i)) => Value::from(*i),
        Json::Number(JsonNumber::Float(t)) => {
            serde_json::from_str::<serde_json::Number>(t).map_or(Value::Null, Value::Number)
        },
        Json::Text(s) => Value::String(s.clone()),
        Json::Array(items) => Value::Array(items.iter().map(to_value).collect()),
        Json::Object(members) => Value::Object(
            members.iter().map(|m| (m.name.clone(), to_value(&m.value))).collect(),
        ),
    }
}

/// `serde_json::from_slice` reads one JSON value from the whole of `bytes`:
/// the result is the value it reads, copied into a [`Json`], and `None`
/// where it reports an error. What it reads depends on the bytes alone.
#[verifier::external_body]
fn read_bytes(bytes: &[u8]) -> (parsed: Option<Json>)
    ensures
        option_view(parsed) == json_of_bytes(bytes@),
{
    serde_json::from_slice::<Value>(bytes).ok().map(from_value)
}

/// `serde_json`'s `Display` for `Value` prints the value as compact JSON
/// text: the result is what it prints for the `Value` that `json` is copied
/// into. That depends on what `json` stands for alone.
#[verifier::external_body]
fn print_value(json: &Json) -> (text: String)
    ensures
        text@ == text_of_json(json@),
{
    to_value(json).to_string()
}

impl Json {
    /// Reads one JSON value from the whole of `bytes`.
    pub fn from_bytes(bytes: &[u8]) -> (parsed: Option<Json>)
        ensures
            option_view(parsed) == json_of_bytes(bytes@),
    {
        read_bytes(bytes)
    }

    /// Reads one JSON value from the whole of `text`.
    pub fn from_text(text: &str) -> (parsed: Option<Json>)
        ensures
            option_view(parsed) == json_of_text(text@),
    {
        read_bytes(text.as_bytes())
    }

    /// Prints the value as compact JSON text.
    pub fn to_text(&self) -> (text: String)
        ensures
            text@ == text_of_json(self@),
    {
        print_value(self)
    }

    /// The member called `name`, where this is an object that has one.
    pub fn member(&self, name: &str) -> (found: Option<&Json>)
        ensures
            option_view(found) == self@.member(name@),
    {
        match self {
            Json::Object(members) => {
                proof {
                    lemma_object_view(*members);
                    assert(member_views(members@).skip(0) =~= member_views(members@));
                }
                let mut i: usize = 0;
                while i < members.len()
                    invariant
                        i <= members.len(),
                        self@ == JsonView::Object(member_views(members@)),
                        find_member(member_views(members@), name@) == find_member(
                            member_views(members@).skip(i as int),
                            name@,
                        ),
                    decreases members.len() - i,
                {
                    let ghost rest = member_views(members@).skip(i as int);
                    if str_eq(members[i].name.as_str(), name) {
                        return Some(&members[i].value);
                    }
                    assert(rest.drop_first() == member_views(members@).skip(i + 1));
                    i += 1;
                }
                None
            },
            _ => None,
        }
    }

    /// The elements, where this is an array.
    pub fn elements(&self) -> (found: Option<&Vec<Json>>)
        ensures
            match found {
                Some(items) => self@.elements() == Some(views(items@)),
                None => self@.elements() is None,
            },
    {
        match self {
            Json::Array(items) => {
                proof {
                    lemma_array_view(*items);
                }
                Some(items)
            },
            _ => None,
        }
    }

    /// The characters, where this is a string.
    pub fn text(&self) -> (found: Option<&String>)
        ensures
            option_view(found) == self@.text(),
    {
        match self {
            Json::Text(t) => Some(t),
            _ => None,
        }
    }

    /// The truth value, where this is `true` or `false`.
    pub fn truth(&self) -> (found: Option<bool>)
        ensures
            found == self@.truth(),
    {
        match self {
            Json::Bool(b) => Some(*b),
            _ => None,
        }
    }

    /// The number, where this is an integer from zero up that fits 64 bits.
    pub fn unsigned(&self) -> (found: Option<u64>)
        ensures
            found == self@.unsigned(),
    {
        match self {
            Json::Number(JsonNumber::PosInt(n)) => Some(*n),
            _ => None,
        }
    }

    /// The number, where this is an integer that fits 64 bits with a sign.
    pub fn signed(&self) -> (found: Option<i64>)
        ensures
            found == self@.signed(),
    {
        match self {
            Json::Number(JsonNumber::PosInt(n)) => if *n <= i64::MAX as u64 {
                Some(*n as i64)
            } else {
                None
            },
            Json::Number(JsonNumber::NegInt(n)) => Some(*n),
            _ => None,
        }
    }

    /// Whether this is `null`.
    pub fn is_null(&self) -> (yes: bool)
        ensures
            yes == (self@ is Null),
    {
        match self {
            Json::Null => true,
            _ => false,
        }
    }
}

impl Clone for JsonNumber {
    fn clone(&self) -> (copy: Self)
        ensures
            copy == *self,
    {
        match self {
            JsonNumber::PosInt(n) => JsonNumber::PosInt(*n),
            JsonNumber::NegInt(n) => JsonNumber::NegInt(*n),
            JsonNumber::Float(t) => JsonNumber::Float(t.clone()),
        }
    }
}

impl Json {
    /// A second value that stands for the same as this one.
    #[verifier::loop_isolation(false)]
    pub fn duplicate(&self) -> (copy: Json)
        ensures
            copy@ == self@,
        decreases self,
    {
        match self {
            Json::Null => Json::Null,
            Json::Bool(b) => Json::Bool(*b),
            Json::Number(n) => Json::Number(n.clone()),
            Json::Text(t) => Json::Text(t.clone()),
            Json::Array(items) => {
                let mut copies: Vec<Json> = Vec::new();
                let mut i: usize = 0;
                while i < items.len()
                    invariant
                        i <= items.len(),
                        views(copies@) == views(items@).take(i as int),
                    decreases items.len() - i,
                {
                    let copy = items[i].duplicate();
                    copies.push(copy);
                    i += 1;
                    assert(views(copies@) =~= views(items@).take(i as int));
                }
                proof {
                    lemma_array_view(*items);
                    lemma_array_view(copies);
                    assert(views(copies@) =~= views(items@));
                }
                Json::Array(copies)
            },
            Json::Object(members) => {
                let mut copies: Vec<JsonMember> = Vec::new();
                let mut i: usize = 0;
                while i < members.len()
                    invariant
                        i <= members.len(),
                        member_views(copies@) == member_views(members@).take(i as int),
                    decreases members.len() - i,
                {
                    let value = members[i].value.duplicate();
                    copies.push(JsonMember { name: members[i].name.clone(), value });
                    i += 1;
                    assert(member_views(copies@) =~= member_views(members@).take(i as int));
                }
                proof {
                    lemma_object_view(*members);
                    lemma_object_view(copies);
                    assert(member_views(copies@) =~= member_views(members@));
                }
                Json::Object(copies)
            },
        }
    }
}

impl Clone for Json {
    fn clone(&self) -> (copy: Self)
        ensures
            copy@ == self@,
    {
        self.duplicate()
    }
}

impl Clone for JsonMember {
    fn clone(&self) -> (copy: Self)
        ensures
            copy.name == self.name,
            copy.value@ == self.value@,
    {
        JsonMember { name: self.name.clone(), value: self.value.duplicate() }
    }
}

} // verus!
