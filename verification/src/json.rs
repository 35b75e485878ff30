//! JSON as plain values: what is read, and what is to be written.
use vstd::prelude::*;
use crate::tables::{as_map, lookup, take};

verus! {

/// A number that was read: as a `u64` where it is one, the bit pattern of the
/// double nearest to it, and that double cut to an `i32`.
#[derive(Debug, Clone, Copy, PartialEq, Eq, Structural)]
pub struct Number {
    pub unsigned: Option<u64>,
    pub bits: u64,
    pub whole: i32,
}

/// A JSON value that was read.
#[derive(Debug)]
pub enum Json {
    Null,
    Boolean(bool),
    Number(Number),
    Text(String),
    List(Vec<Json>),
    Object(Vec<(String, Json)>),
}

/// [`Json`] as a mathematical value.
pub enum JsonModel {
    Null,
    Boolean(bool),
    Number(Number),
    Text(Seq<char>),
    List(Seq<JsonModel>),
    Object(Seq<(Seq<char>, JsonModel)>),
}

impl Json {
    pub open spec fn model(self) -> JsonModel
        decreases self,
    {
        match self {
            Json::Null => JsonModel::Null,
            Json::Boolean(b) => JsonModel::Boolean(b),
            Json::Number(n) => JsonModel::Number(n),
            Json::Text(text) => JsonModel::Text(text@),
            Json::List(items) => JsonModel::List(
                Seq::new(
                    items@.len(),
                    |i: int|
                        if 0 <= i < items@.len() {
                            items@[i].model()
                        } else {
                            arbitrary()
                        },
                ),
            ),
            Json::Object(entries) => JsonModel::Object(
                Seq::new(
                    entries@.len(),
                    |i: int|
                        if 0 <= i < entries@.len() {
                            (entries@[i].0@, entries@[i].1.model())
                        } else {
                            arbitrary()
                        },
                ),
            ),
        }
    }
}

impl DeepView for Json {
    type V = JsonModel;

    open spec fn deep_view(&self) -> JsonModel {
        self.model()
    }
}

/// What `serde_json` reads in a text: a value, or the text of its error.
pub uninterp spec fn json_document(text: Seq<char>) -> Result<JsonModel, Seq<char>>;

/// How `serde_json` shows the member of an object it reads in a text.
pub uninterp spec fn json_member(text: Seq<char>, key: Seq<char>) -> Option<Seq<char>>;

/// `serde_json::Value`: a JSON value, as `serde_json` holds it.
#[verifier::external_type_specification]
#[verifier::external_body]
pub struct ExJsonValue(serde_json::Value);

/// `serde_json::Value` as a [`Json`], one variant after the other.
#[verifier::external_body]
fn json_of(value: serde_json::Value) -> Json {
    match value {
        serde_json::Value::Null => Json::Null,
        serde_json::Value::Bool(b) => Json::Boolean(b),
        serde_json::Value::Number(n) => {
            let double = n.as_f64().unwrap_or_default();
            let (bits, whole) = (double.to_bits(), double as i32);
            Json::Number(Number { unsigned: n.as_u64(), bits, whole })
        },
        serde_json::Value::String(text) => Json::Text(text),
        serde_json::Value::Array(items) => Json::List(items.into_iter().map(json_of).collect()),
        serde_json::Value::Object(entries) => Json::Object(
            entries.into_iter().map(|(key, value)| (key, json_of(value))).collect(),
        ),
    }
}

/// A value or the text of an error, as a mathematical value.
pub open spec fn json_result(r: Result<Json, String>) -> Result<JsonModel, Seq<char>> {
    match r {
        Ok(json) => Ok(json.deep_view()),
        Err(message) => Err(message@),
    }
}

/// `serde_json::from_str`: the value a text holds, or why it holds none. Which
/// texts those are, and what the errors say, is left to `serde_json`.
#[verifier::external_body]
pub(crate) fn read_json(text: &str) -> (r: Result<Json, String>)
    ensures
        json_result(r) == json_document(text@),
{
    match serde_json::from_str::<serde_json::Value>(text) {
        Ok(value) => Ok(json_of(value)),
        Err(e) => Err(e.to_string()),
    }
}

/// `serde_json::Value`'s `Display` for one member of the object that
/// `serde_json::from_str` reads in a text; nothing where that is no object with
/// such a member. How the member is written is left to `serde_json`.
#[verifier::external_body]
pub(crate) fn show_member(text: &str, key: &str) -> (r: Option<String>)
    ensures
        r.deep_view() == json_member(text@, key@),
        r is Some == has_member(json_document(text@), key@),
{
    let value = serde_json::from_str::<serde_json::Value>(text).ok()?;
    Some(value.get(key)?.to_string())
}

/// The member of an object.
pub open spec fn member(json: JsonModel, key: Seq<char>) -> Option<JsonModel> {
    match json {
        JsonModel::Object(entries) => if as_map(entries).contains_key(key) {
            Some(as_map(entries)[key])
        } else {
            None
        },
        _ => None,
    }
}

/// What was read is an object with this member.
pub open spec fn has_member(read: Result<JsonModel, Seq<char>>, key: Seq<char>) -> bool {
    read matches Ok(json) && member(json, key) is Some
}

/// The items of a list.
pub open spec fn items(json: JsonModel) -> Option<Seq<JsonModel>> {
    match json {
        JsonModel::List(items) => Some(items),
        _ => None,
    }
}

/// The text of a value.
pub open spec fn text_of(json: Option<JsonModel>) -> Option<Seq<char>> {
    match json {
        Some(JsonModel::Text(text)) => Some(text),
        _ => None,
    }
}

/// The truth value of a value.
pub open spec fn bool_of(json: Option<JsonModel>) -> Option<bool> {
    match json {
        Some(JsonModel::Boolean(b)) => Some(b),
        _ => None,
    }
}

/// The number of a value.
pub open spec fn number_of(json: JsonModel) -> Option<Number> {
    match json {
        JsonModel::Number(n) => Some(n),
        _ => None,
    }
}

/// The natural number of a value.
pub open spec fn unsigned_of(json: Option<JsonModel>) -> Option<u64> {
    match json {
        Some(JsonModel::Number(n)) => n.unsigned,
        _ => None,
    }
}

impl Json {
    /// The member of an object.
    pub fn get(&self, key: &str) -> (r: Option<&Json>)
        ensures
            r.deep_view() == member(self.deep_view(), key@),
    {
        match self {
            Json::Object(entries) => {
                assert(self.deep_view()->Object_0 =~= entries.deep_view());
                lookup(entries, key)
            },
            _ => None,
        }
    }

    /// The items of a list.
    pub fn as_list(&self) -> (r: Option<&Vec<Json>>)
        ensures
            r.deep_view() == items(self.deep_view()),
    {
        match self {
            Json::List(items) => {
                assert(self.deep_view()->List_0 =~= items.deep_view());
                Some(items)
            },
            _ => None,
        }
    }

    /// The number, where the value is one.
    pub fn as_number(&self) -> (r: Option<Number>)
        ensures
            r == number_of(self.deep_view()),
    {
        match self {
            Json::Number(n) => Some(*n),
            _ => None,
        }
    }

    /// The text of a member.
    pub fn text_at(&self, key: &str) -> (r: Option<String>)
        ensures
            r.deep_view() == text_of(member(self.deep_view(), key@)),
    {
        match self.get(key) {
            Some(Json::Text(text)) => Some(text.clone()),
            _ => None,
        }
    }

    /// The truth value of a member.
    pub fn bool_at(&self, key: &str) -> (r: Option<bool>)
        ensures
            r == bool_of(member(self.deep_view(), key@)),
    {
        match self.get(key) {
            Some(Json::Boolean(b)) => Some(*b),
            _ => None,
        }
    }

    /// The natural number of a member.
    pub fn unsigned_at(&self, key: &str) -> (r: Option<u64>)
        ensures
            r == unsigned_of(member(self.deep_view(), key@)),
    {
        match self.get(key) {
            Some(Json::Number(n)) => n.unsigned,
            _ => None,
        }
    }
}

/// The member of an object, taken out of it.
pub fn take_member(json: Json, key: &str) -> (r: Option<Json>)
    ensures
        r.deep_view() == member(json.deep_view(), key@),
{
    match json {
        Json::Object(entries) => {
            assert(json.deep_view()->Object_0 =~= entries.deep_view());
            take(entries, key)
        },
        _ => None,
    }
}

/// A JSON value that is to be written. Doubles are given by their bit pattern.
#[derive(Debug, PartialEq, Eq)]
pub enum Message {
    Boolean(bool),
    Unsigned(u64),
    Integer(i32),
    Double(u64),
    Text(String),
    List(Vec<Message>),
    Object(Vec<(String, Message)>),
}

/// [`Message`] as a mathematical value.
pub enum MessageModel {
    Boolean(bool),
    Unsigned(u64),
    Integer(i32),
    Double(u64),
    Text(Seq<char>),
    List(Seq<MessageModel>),
    Object(Seq<(Seq<char>, MessageModel)>),
}

impl Message {
    pub open spec fn model(self) -> MessageModel
        decreases self,
    {
        match self {
            Message::Boolean(b) => MessageModel::Boolean(b),
            Message::Unsigned(n) => MessageModel::Unsigned(n),
            Message::Integer(n) => MessageModel::Integer(n),
            Message::Double(bits) => MessageModel::Double(bits),
            Message::Text(text) => MessageModel::Text(text@),
            Message::List(items) => MessageModel::List(
                Seq::new(
                    items@.len(),
                    |i: int|
                        if 0 <= i < items@.len() {
                            items@[i].model()
                        } else {
                            arbitrary()
                        },
                ),
            ),
            Message::Object(entries) => MessageModel::Object(
                Seq::new(
                    entries@.len(),
                    |i: int|
                        if 0 <= i < entries@.len() {
                            (entries@[i].0@, entries@[i].1.model())
                        } else {
                            arbitrary()
                        },
                ),
            ),
        }
    }
}

impl DeepView for Message {
    type V = MessageModel;

    open spec fn deep_view(&self) -> MessageModel {
        self.model()
    }
}

/// An object with one member.
pub open spec fn object1(key: Seq<char>, value: MessageModel) -> MessageModel {
    MessageModel::Object(seq![(key, value)])
}

/// An object with two members.
pub open spec fn object2(
    key: Seq<char>,
    value: MessageModel,
    key2: Seq<char>,
    value2: MessageModel,
) -> MessageModel {
    MessageModel::Object(seq![(key, value), (key2, value2)])
}

/// An object with three members.
pub open spec fn object3(
    key: Seq<char>,
    value: MessageModel,
    key2: Seq<char>,
    value2: MessageModel,
    key3: Seq<char>,
    value3: MessageModel,
) -> MessageModel {
    MessageModel::Object(seq![(key, value), (key2, value2), (key3, value3)])
}

impl Message {
    pub fn text(text: &str) -> (r: Message)
        ensures
            r.deep_view() == MessageModel::Text(text@),
    {
        Message::Text(text.to_owned())
    }

    pub fn list(items: Vec<Message>) -> (r: Message)
        ensures
            r.deep_view() == MessageModel::List(items.deep_view()),
    {
        let r = Message::List(items);
        assert(r.deep_view()->List_0 =~= items.deep_view());
        r
    }

    pub fn object1(key: &str, value: Message) -> (r: Message)
        ensures
            r.deep_view() == object1(key@, value.deep_view()),
    {
        let r = Message::Object(vec![(key.to_owned(), value)]);
        assert(r.deep_view()->Object_0 =~= seq![(key@, value.deep_view())]);
        r
    }

    pub fn object2(key: &str, value: Message, key2: &str, value2: Message) -> (r: Message)
        ensures
            r.deep_view() == object2(key@, value.deep_view(), key2@, value2.deep_view()),
    {
        let r = Message::Object(vec![(key.to_owned(), value), (key2.to_owned(), value2)]);
        assert(r.deep_view()->Object_0 =~= seq![
            (key@, value.deep_view()),
            (key2@, value2.deep_view()),
        ]);
        r
    }

    pub fn object3(
        key: &str,
        value: Message,
        key2: &str,
        value2: Message,
        key3: &str,
        value3: Message,
    ) -> (r: Message)
        ensures
            r.deep_view() == object3(
                key@,
                value.deep_view(),
                key2@,
                value2.deep_view(),
                key3@,
                value3.deep_view(),
            ),
    {
        let r = Message::Object(
            vec![
                (key.to_owned(), value),
                (key2.to_owned(), value2),
                (key3.to_owned(), value3),
            ],
        );
        assert(r.deep_view()->Object_0 =~= seq![
            (key@, value.deep_view()),
            (key2@, value2.deep_view()),
            (key3@, value3.deep_view()),
        ]);
        r
    }
}

} // verus!
