//! JSON values, and the passage between them and text.

use crate::text::same_text;
use vstd::prelude::*;

verus! {

/// A number of `serde_json`, carried as it came.
#[verifier::external_type_specification]
#[verifier::external_body]
pub struct ExNumber(serde_json::Number);

/// A parsed value of `serde_json`; its contents are named by `serde_contents`.
#[verifier::external_type_specification]
#[verifier::external_body]
pub struct ExValue(serde_json::Value);

/// A JSON value. An object lists its members; where a name occurs twice, the later member counts.
#[derive(Debug, PartialEq, Eq)]
pub enum JsonValue {
    Null,
    Bool(bool),
    Number(serde_json::Number),
    Text(String),
    Array(Vec<JsonValue>),
    Object(Vec<JsonMember>),
}

/// A member of a JSON object.
#[derive(Debug, PartialEq, Eq)]
pub struct JsonMember {
    pub name: String,
    pub value: JsonValue,
}

/// What a JSON value means: an object is a map from names to values.
#[verifier::ext_equal]
pub enum Json {
    Null,
    Bool(bool),
    Number(serde_json::Number),
    Text(Seq<char>),
    Array(Seq<Json>),
    Object(Map<Seq<char>, Json>),
}

/// What `value` means.
pub open spec fn json_of(value: JsonValue) -> Json
    decreases value,
{
    match value {
        JsonValue::Null => Json::Null,
        JsonValue::Bool(b) => Json::Bool(b),
        JsonValue::Number(n) => Json::Number(n),
        JsonValue::Text(s) => Json::Text(s@),
        JsonValue::Array(items) => Json::Array(array_of(items@)),
        JsonValue::Object(members) => Json::Object(object_of(members@)),
    }
}

/// What the items of an array mean.
pub open spec fn array_of(items: Seq<JsonValue>) -> Seq<Json>
    decreases items,
{
    if items.len() == 0 {
        Seq::empty()
    } else {
        array_of(items.drop_last()).push(json_of(items.last()))
    }
}

/// What a list of members means: of two with the same name the later one counts.
pub open spec fn object_of(members: Seq<JsonMember>) -> Map<Seq<char>, Json>
    decreases members,
{
    if members.len() == 0 {
        Map::empty()
    } else {
        object_of(members.drop_last()).insert(members.last().name@, json_of(members.last().value))
    }
}

impl DeepView for JsonValue {
    type V = Json;

    open spec fn deep_view(&self) -> Json {
        json_of(*self)
    }
}

/// The member `name` of an object.
pub open spec fn member(json: Json, name: Seq<char>) -> Option<Json> {
    match json {
        Json::Object(members) => if members.contains_key(name) {
            Some(members[name])
        } else {
            None
        },
        _ => None,
    }
}

/// The text of a JSON string.
pub open spec fn string_of(json: Option<Json>) -> Option<Seq<char>> {
    match json {
        Some(Json::Text(s)) => Some(s),
        _ => None,
    }
}

/// The items of a JSON array.
pub open spec fn items_of(json: Option<Json>) -> Option<Seq<Json>> {
    match json {
        Some(Json::Array(items)) => Some(items),
        _ => None,
    }
}

/// `first`, or `second` where there is no `first`.
pub open spec fn either(first: Option<Json>, second: Option<Json>) -> Option<Json> {
    match first {
        Some(json) => Some(json),
        None => second,
    }
}

/// The member `name` of an object, where it is a string.
pub open spec fn string_member(json: Json, name: Seq<char>) -> Option<Seq<char>> {
    string_of(member(json, name))
}

/// Names what `serde_json::Number::as_u64` returns: the number, where it was written as an
/// integer from 0 to `u64::MAX`.
pub uninterp spec fn number_as_u64(number: serde_json::Number) -> Option<u64>;

/// Names what `serde_json::Number::from` makes of a `u64`.
pub uninterp spec fn number_from_u64(value: u64) -> serde_json::Number;

/// The unsigned integer that a JSON number holds.
pub open spec fn u64_of(json: Option<Json>) -> Option<u64> {
    match json {
        Some(Json::Number(n)) => number_as_u64(n),
        _ => None,
    }
}

/// The member `name` of an object, where it is an unsigned integer.
pub open spec fn u64_member(json: Json, name: Seq<char>) -> Option<u64> {
    u64_of(member(json, name))
}

/// Names what a value of `serde_json` holds.
pub uninterp spec fn serde_contents(value: serde_json::Value) -> Json;

/// Names what `serde_json::from_str` makes of a text as a `Value`: its contents, or the message
/// of the error.
pub uninterp spec fn json_parsed(text: Seq<char>) -> Result<Json, Seq<char>>;

/// Names what `serde_json::Value` prints with `to_string`: compact JSON text.
pub uninterp spec fn json_text(json: Json) -> Seq<char>;

/// Names what `serde_json::Value` prints with `Debug`.
pub uninterp spec fn json_debug(json: Json) -> Seq<char>;

/// `serde_json::Number::as_u64`, under its name.
pub assume_specification[ serde_json::Number::as_u64 ](number: &serde_json::Number) -> (res: Option<
    u64,
>)
    ensures
        res == number_as_u64(*number),
;

/// `Clone` of `serde_json::Number` copies the number.
pub assume_specification[ <serde_json::Number as Clone>::clone ](
    number: &serde_json::Number,
) -> (res: serde_json::Number)
    ensures
        res == *number,
;

/// `serde_json::Number::from` on a `u64`: a number that reads back as that integer.
#[verifier::external_body]
fn serde_number(value: u64) -> (res: serde_json::Number)
    ensures
        res == number_from_u64(value),
        number_as_u64(res) == Some(value),
{
    serde_json::Number::from(value)
}

/// `serde_json::from_str` for a `Value`: the parsed value, or the text of the error.
#[verifier::external_body]
fn serde_parse(text: &str) -> (res: Result<serde_json::Value, String>)
    ensures
        match res {
            Ok(value) => json_parsed(text@) == Ok::<Json, Seq<char>>(serde_contents(value)),
            Err(message) => json_parsed(text@) == Err::<Json, Seq<char>>(message@),
        },
{
    serde_json::from_str(text).map_err(|error| error.to_string())
}

/// `to_string` of a `serde_json::Value`: the text depends on the contents alone.
#[verifier::external_body]
fn serde_print(value: &serde_json::Value) -> (res: String)
    ensures
        res@ == json_text(serde_contents(*value)),
{
    value.to_string()
}

/// `Debug` of a `serde_json::Value`: the text depends on the contents alone.
#[verifier::external_body]
fn serde_debug(value: &serde_json::Value) -> (res: String)
    ensures
        res@ == json_debug(serde_contents(*value)),
{
    format!("{value:?}")
}

/// Converts a `serde_json::Value` variant by variant; the members of its map come in the map's
/// own order.
#[verifier::external_body]
fn from_serde(value: serde_json::Value) -> (res: JsonValue)
    ensures
        res.deep_view() == serde_contents(value),
{
    match value {
        serde_json::Value::Null => JsonValue::Null,
        serde_json::Value::Bool(b) => JsonValue::Bool(b),
        serde_json::Value::Number(n) => JsonValue::Number(n),
        serde_json::Value::String(s) => JsonValue::Text(s),
        serde_json::Value::Array(items) => JsonValue::Array(items.into_iter().map(from_serde).collect()),
        serde_json::Value::Object(members) => JsonValue::Object(
            members.into_iter().map(|(name, value)| JsonMember { name, value: from_serde(value) }).collect(),
        ),
    }
}

/// Converts to a `serde_json::Value` variant by variant. The members go one after the other into a
/// `serde_json::Map` by `Map::insert`, which updates the value where the name is there already: of
/// two members of one name the later stays.
#[verifier::external_body]
fn to_serde(value: &JsonValue) -> (res: serde_json::Value)
    ensures
        serde_contents(res) == value.deep_view(),
{
    match value {
        JsonValue::Null => serde_json::Value::Null,
        JsonValue::Bool(b) => serde_json::Value::Bool(*b),
        JsonValue::Number(n) => serde_json::Value::Number(n.clone()),
        JsonValue::Text(s) => serde_json::Value::String(s.clone()),
        JsonValue::Array(items) => serde_json::Value::Array(items.iter().map(to_serde).collect()),
        JsonValue::Object(members) => {
            let mut map = serde_json::Map::new();
            for member in members {
                map.insert(member.name.clone(), to_serde(&member.value));
            }
            serde_json::Value::Object(map)
        },
    }
}

/// An array means its items, one for one.
pub proof fn lemma_array_of(items: Seq<JsonValue>)
    ensures
        array_of(items).len() == items.len(),
        forall|i: int| 0 <= i < items.len() ==> #[trigger] array_of(items)[i] == json_of(items[i]),
    decreases items.len(),
{
    if items.len() > 0 {
        lemma_array_of(items.drop_last());
        assert forall|i: int| 0 <= i < items.len() implies #[trigger] array_of(items)[i] == json_of(
            items[i],
        ) by {
            if i < items.len() - 1 {
                assert(array_of(items.drop_last())[i] == json_of(items.drop_last()[i]));
            }
        }
    }
}

/// The last member of a name is the one that counts.
proof fn lemma_object_of(members: Seq<JsonMember>, at: int)
    requires
        0 <= at < members.len(),
        forall|i: int| at < i < members.len() ==> members[i].name@ != members[at].name@,
    ensures
        object_of(members).contains_key(members[at].name@),
        object_of(members)[members[at].name@] == json_of(members[at].value),
    decreases members.len(),
{
    if at < members.len() - 1 {
        assert(members.last().name@ != members[at].name@);
        lemma_object_of(members.drop_last(), at);
    }
}

proof fn lemma_object_of_absent(members: Seq<JsonMember>, name: Seq<char>)
    requires
        forall|i: int| 0 <= i < members.len() ==> members[i].name@ != name,
    ensures
        !object_of(members).contains_key(name),
    decreases members.len(),
{
    if members.len() > 0 {
        assert(members.last().name@ != name);
        lemma_object_of_absent(members.drop_last(), name);
    }
}

/// Of two lists of members in a row, those of the second count where both have a name.
pub proof fn lemma_object_of_concat(first: Seq<JsonMember>, second: Seq<JsonMember>)
    ensures
        object_of(first + second) == object_of(first).union_prefer_right(object_of(second)),
    decreases second.len(),
{
    if second.len() == 0 {
        assert(first + second =~= first);
        assert(object_of(first).union_prefer_right(object_of(second)) =~= object_of(first));
    } else {
        lemma_object_of_concat(first, second.drop_last());
        assert((first + second).drop_last() =~= first + second.drop_last());
        assert(object_of(first + second) =~= object_of(first).union_prefer_right(
            object_of(second),
        ));
    }
}

impl Clone for JsonMember {
    fn clone(&self) -> (res: Self)
        ensures
            res.name == self.name,
            json_of(res.value) == json_of(self.value),
        decreases self,
    {
        JsonMember { name: self.name.clone(), value: self.value.clone() }
    }
}

impl Clone for JsonValue {
    fn clone(&self) -> (res: Self)
        ensures
            res.deep_view() == self.deep_view(),
        decreases self,
    {
        match self {
            JsonValue::Null => JsonValue::Null,
            JsonValue::Bool(b) => JsonValue::Bool(*b),
            JsonValue::Number(n) => JsonValue::Number(n.clone()),
            JsonValue::Text(s) => JsonValue::Text(s.clone()),
            JsonValue::Array(items) => {
                let mut copies: Vec<JsonValue> = Vec::new();
                let mut i: usize = 0;
                while i < items.len()
                    invariant
                        *self == JsonValue::Array(*items),
                        i <= items.len(),
                        array_of(copies@) == array_of(items@.take(i as int)),
                    decreases items.len() - i,
                {
                    assert(decreases_to!(*self => self->Array_0));
                    assert(decreases_to!(self->Array_0 => self->Array_0@));
                    assert(decreases_to!(items@ => items@[i as int]));
                    let ghost before = copies@;
                    let copy = items[i].clone();
                    copies.push(copy);
                    assert(copies@.drop_last() =~= before);
                    assert(items@.take(i + 1).drop_last() =~= items@.take(i as int));
                    i += 1;
                }
                assert(items@.take(i as int) =~= items@);
                JsonValue::Array(copies)
            },
            JsonValue::Object(members) => {
                let mut copies: Vec<JsonMember> = Vec::new();
                let mut i: usize = 0;
                while i < members.len()
                    invariant
                        *self == JsonValue::Object(*members),
                        i <= members.len(),
                        object_of(copies@) == object_of(members@.take(i as int)),
                    decreases members.len() - i,
                {
                    assert(decreases_to!(*self => self->Object_0));
                    assert(decreases_to!(self->Object_0 => self->Object_0@));
                    assert(decreases_to!(members@ => members@[i as int]));
                    let ghost before = copies@;
                    let copy = members[i].clone();
                    copies.push(copy);
                    assert(copies@.drop_last() =~= before);
                    assert(members@.take(i + 1).drop_last() =~= members@.take(i as int));
                    i += 1;
                }
                assert(members@.take(i as int) =~= members@);
                JsonValue::Object(copies)
            },
        }
    }
}

/// A list without members.
pub fn no_members() -> (res: Vec<JsonMember>)
    ensures
        object_of(res@) == Map::<Seq<char>, Json>::empty(),
{
    Vec::new()
}

/// Sets the member `name` to `value`.
pub fn put(members: &mut Vec<JsonMember>, name: &str, value: JsonValue)
    ensures
        object_of(final(members)@) == object_of(old(members)@).insert(name@, value.deep_view()),
{
    let ghost before = members@;
    members.push(JsonMember { name: name.to_owned(), value });
    assert(members@.drop_last() =~= before);
}

/// The object with these members.
pub fn object(members: Vec<JsonMember>) -> (res: JsonValue)
    ensures
        res.deep_view() == Json::Object(object_of(members@)),
{
    JsonValue::Object(members)
}

/// The array of these items.
pub fn array(items: Vec<JsonValue>) -> (res: JsonValue)
    ensures
        res.deep_view() == Json::Array(items.deep_view()),
{
    proof {
        lemma_array_of(items@);
        assert(array_of(items@) =~= items.deep_view());
    }
    JsonValue::Array(items)
}

/// A copy of a list of members.
pub fn clone_members(members: &Vec<JsonMember>) -> (res: Vec<JsonMember>)
    ensures
        object_of(res@) == object_of(members@),
{
    let mut copies: Vec<JsonMember> = Vec::new();
    let mut i: usize = 0;
    while i < members.len()
        invariant
            i <= members.len(),
            object_of(copies@) == object_of(members@.take(i as int)),
        decreases members.len() - i,
    {
        let ghost before = copies@;
        let copy = members[i].clone();
        copies.push(copy);
        assert(copies@.drop_last() =~= before);
        assert(members@.take(i + 1).drop_last() =~= members@.take(i as int));
        i += 1;
    }
    assert(members@.take(i as int) =~= members@);
    copies
}

impl JsonValue {
    /// Parses JSON text.
    pub fn parse(text: &str) -> (res: Result<JsonValue, String>)
        ensures
            match res {
                Ok(value) => json_parsed(text@) == Ok::<Json, Seq<char>>(value.deep_view()),
                Err(message) => json_parsed(text@) == Err::<Json, Seq<char>>(message@),
            },
    {
        match serde_parse(text) {
            Ok(value) => Ok(from_serde(value)),
            Err(message) => Err(message),
        }
    }

    /// The value as compact JSON text.
    pub fn to_text(&self) -> (res: String)
        ensures
            res@ == json_text(self.deep_view()),
    {
        serde_print(&to_serde(self))
    }

    /// The value with its variants by name.
    pub fn to_debug_text(&self) -> (res: String)
        ensures
            res@ == json_debug(self.deep_view()),
    {
        serde_debug(&to_serde(self))
    }

    /// The number `value`.
    pub fn from_u64(value: u64) -> (res: JsonValue)
        ensures
            res.deep_view() == Json::Number(number_from_u64(value)),
            u64_of(Some(res.deep_view())) == Some(value),
    {
        JsonValue::Number(serde_number(value))
    }

    /// The string `text`.
    pub fn string(text: &str) -> (res: JsonValue)
        ensures
            res.deep_view() == Json::Text(text@),
    {
        JsonValue::Text(text.to_owned())
    }

    /// The member `name` of an object.
    pub fn get(&self, name: &str) -> (res: Option<&JsonValue>)
        ensures
            res.deep_view() == member(self.deep_view(), name@),
    {
        match self {
            JsonValue::Object(members) => {
                let mut i: usize = members.len();
                while i > 0
                    invariant
                        *self == JsonValue::Object(*members),
                        i <= members.len(),
                        forall|j: int| i <= j < members.len() ==> members@[j].name@ != name@,
                    decreases i,
                {
                    i -= 1;
                    if same_text(&members[i].name, name) {
                        proof {
                            lemma_object_of(members@, i as int);
                        }
                        return Some(&members[i].value);
                    }
                }
                proof {
                    lemma_object_of_absent(members@, name@);
                }
                None
            },
            _ => None,
        }
    }

    /// The text of a string.
    pub fn as_str(&self) -> (res: Option<&str>)
        ensures
            res.deep_view() == string_of(Some(self.deep_view())),
    {
        match self {
            JsonValue::Text(s) => Some(s.as_str()),
            _ => None,
        }
    }

    /// The unsigned integer of a number.
    pub fn as_u64(&self) -> (res: Option<u64>)
        ensures
            res == u64_of(Some(self.deep_view())),
    {
        match self {
            JsonValue::Number(n) => n.as_u64(),
            _ => None,
        }
    }

    /// The items of an array.
    pub fn as_array(&self) -> (res: Option<&Vec<JsonValue>>)
        ensures
            res.deep_view() == items_of(Some(self.deep_view())),
    {
        match self {
            JsonValue::Array(items) => {
                proof {
                    lemma_array_of(items@);
                    assert(array_of(items@) =~= items.deep_view());
                }
                Some(items)
            },
            _ => None,
        }
    }

    /// Whether the value is an object.
    pub fn is_object(&self) -> (res: bool)
        ensures
            res == (self.deep_view() is Object),
    {
        match self {
            JsonValue::Object(_) => true,
            _ => false,
        }
    }

    /// The member `name`, where it is a string.
    pub fn get_str(&self, name: &str) -> (res: Option<&str>)
        ensures
            res.deep_view() == string_member(self.deep_view(), name@),
    {
        match self.get(name) {
            Some(value) => value.as_str(),
            None => None,
        }
    }

    /// The member `name`, where it is an unsigned integer.
    pub fn get_u64(&self, name: &str) -> (res: Option<u64>)
        ensures
            res == u64_member(self.deep_view(), name@),
    {
        match self.get(name) {
            Some(value) => value.as_u64(),
            None => None,
        }
    }

    /// A copy of the text of the member `name`, where it is a string.
    pub fn get_string(&self, name: &str) -> (res: Option<String>)
        ensures
            res.deep_view() == string_member(self.deep_view(), name@),
    {
        match self.get_str(name) {
            Some(text) => Some(text.to_owned()),
            None => None,
        }
    }
}

} // verus!
