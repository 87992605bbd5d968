// JSON documents. The text is read by `serde_json`; what the package manager
// works on is a copy in a type of its own.
use crate::numng_error::NumngError;
use vstd::prelude::*;

verus! {

/// Declares `serde_json::Value`, a JSON value as `serde_json` holds it.
/// Nothing is known of what is inside; see `json_content`.
#[verifier::external_type_specification]
#[verifier::external_body]
pub struct ExValue(serde_json::Value);

/// Declares `serde_json::Error`, the error of reading JSON. Nothing is known
/// of what is inside.
#[verifier::external_type_specification]
#[verifier::external_body]
pub struct ExError(serde_json::Error);

/// A JSON document, as the package manager reads it: what it holds, and how
/// it is shown in a message about it.
#[derive(Debug, PartialEq, Eq)]
pub struct JsonValue {
    /// The document as a message shows it.
    pub shown: String,
    pub data: JsonData,
}

/// What a JSON document holds. Of a number only that it is one is kept. The
/// members of an object are kept in the order in which the document's reader
/// lists them.
#[derive(Debug, PartialEq, Eq)]
pub enum JsonData {
    Null,
    Bool(bool),
    Number,
    String(String),
    Array(Vec<JsonValue>),
    Object(Vec<(String, JsonValue)>),
}

/// A `JsonValue`, as mathematical values.
pub struct JsonView {
    pub shown: Seq<char>,
    pub data: JsonDataView,
}

/// A `JsonData`, as mathematical values.
pub enum JsonDataView {
    Null,
    Bool(bool),
    Number,
    String(Seq<char>),
    Array(Seq<JsonView>),
    Object(Seq<(Seq<char>, JsonView)>),
}

/// A JSON document as mathematical values.
pub open spec fn json_view(doc: JsonValue) -> JsonView
    decreases doc,
{
    JsonView {
        shown: doc.shown@,
        data: match doc.data {
            JsonData::Null => JsonDataView::Null,
            JsonData::Bool(b) => JsonDataView::Bool(b),
            JsonData::Number => JsonDataView::Number,
            JsonData::String(s) => JsonDataView::String(s@),
            JsonData::Array(items) => JsonDataView::Array(
                Seq::new(
                    items.len() as nat,
                    |i: int|
                        if 0 <= i < items.len() {
                            json_view(items[i])
                        } else {
                            arbitrary()
                        },
                ),
            ),
            JsonData::Object(members) => JsonDataView::Object(
                Seq::new(
                    members.len() as nat,
                    |i: int|
                        if 0 <= i < members.len() {
                            (members[i].0@, json_view(members[i].1))
                        } else {
                            arbitrary()
                        },
                ),
            ),
        },
    }
}

impl View for JsonValue {
    type V = JsonView;

    open spec fn view(&self) -> JsonView {
        json_view(*self)
    }
}

impl DeepView for JsonValue {
    type V = JsonView;

    open spec fn deep_view(&self) -> JsonView {
        self.view()
    }
}

/// The value that `serde_json` reads from a text, if the text is JSON.
pub uninterp spec fn json_value_of(text: Seq<char>) -> Option<serde_json::Value>;

/// What a `serde_json::Value` holds, and how it is shown.
pub uninterp spec fn json_content(value: serde_json::Value) -> JsonView;

/// Reads JSON.
///
/// Trusted: calls `serde_json::from_str` for a `Value`, which returns a value
/// or an error and depends on nothing but the text. The contract gives the
/// outcome its name.
#[verifier::external_body]
fn read_value(text: &str) -> (r: Result<serde_json::Value, serde_json::Error>)
    ensures
        match r {
            Ok(value) => json_value_of(text@) == Some(value),
            Err(_) => json_value_of(text@) is None,
        },
{
    serde_json::from_str::<serde_json::Value>(text)
}

/// Copies a `serde_json::Value` into a `JsonValue`.
///
/// Trusted: tells the variants of `serde_json::Value` apart and moves what
/// each one holds; the members of an object come in the order in which
/// `serde_json::Map::iter` gives them. Each value is shown as its `Debug`
/// implementation writes it. The result depends on nothing but the value;
/// the contract gives it its name.
#[verifier::external_body]
fn from_value(value: &serde_json::Value) -> (r: JsonValue)
    ensures
        r@ == json_content(*value),
{
    let data = match value {
        serde_json::Value::Null => JsonData::Null,
        serde_json::Value::Bool(b) => JsonData::Bool(*b),
        serde_json::Value::Number(_) => JsonData::Number,
        serde_json::Value::String(s) => JsonData::String(s.clone()),
        serde_json::Value::Array(a) => JsonData::Array(a.iter().map(from_value).collect()),
        serde_json::Value::Object(m) => JsonData::Object(
            m.iter().map(|(k, v)| (k.clone(), from_value(v))).collect(),
        ),
    };
    JsonValue { shown: format!("{:?}", value), data }
}

/// The message of a JSON error.
///
/// Trusted: calls `to_string` on a `serde_json::Error`. Nothing is claimed
/// of the message.
#[verifier::external_body]
fn error_message(error: &serde_json::Error) -> (r: String) {
    error.to_string()
}

/// The document that a text holds, if the text is JSON.
pub open spec fn document_of(text: Seq<char>) -> Option<JsonView> {
    match json_value_of(text) {
        Some(value) => Some(json_content(value)),
        None => None,
    }
}

/// Where in `members` the key `key` stands first, if anywhere.
pub open spec fn member_index(members: Seq<(Seq<char>, JsonView)>, key: Seq<char>) -> Option<int>
    decreases members.len(),
{
    if members.len() == 0 {
        None
    } else if members.last().0 == key && member_index(members.drop_last(), key) is None {
        Some(members.len() - 1)
    } else {
        member_index(members.drop_last(), key)
    }
}

/// `member_index` gives the first place of the key, and none only if the key
/// is nowhere.
pub proof fn lemma_member_index(members: Seq<(Seq<char>, JsonView)>, key: Seq<char>)
    ensures
        match member_index(members, key) {
            Some(i) => 0 <= i < members.len() && members[i].0 == key && forall|j: int|
                0 <= j < i ==> (#[trigger] members[j]).0 != key,
            None => forall|j: int| 0 <= j < members.len() ==> (#[trigger] members[j]).0 != key,
        },
    decreases members.len(),
{
    if members.len() > 0 {
        lemma_member_index(members.drop_last(), key);
        assert forall|j: int| 0 <= j < members.len() - 1 implies members.drop_last()[j]
            == members[j] by {}
        match member_index(members.drop_last(), key) {
            Some(i) => {
            },
            None => {
            },
        }
    }
}

/// The member of an object under `key`; none if there is no such member or
/// if `doc` is no object.
pub open spec fn member(doc: JsonView, key: Seq<char>) -> Option<JsonView> {
    match doc.data {
        JsonDataView::Object(members) => match member_index(members, key) {
            Some(i) => Some(members[i].1),
            None => None,
        },
        _ => None,
    }
}

/// A member of a document is a smaller document, and so is what it holds.
pub proof fn lemma_member_decreases(doc: JsonView, key: Seq<char>)
    ensures
        match member(doc, key) {
            Some(v) => decreases_to!(doc => v) && match v.data {
                JsonDataView::Object(members) => decreases_to!(doc => members),
                JsonDataView::Array(items) => decreases_to!(doc => items),
                _ => true,
            },
            None => true,
        },
{
    match doc.data {
        JsonDataView::Object(members) => {
            lemma_member_index(members, key);
            match member_index(members, key) {
                Some(i) => {
                    match members[i].1.data {
                        JsonDataView::Object(inner) => {
                        },
                        JsonDataView::Array(items) => {
                        },
                        _ => {},
                    }
                },
                None => {},
            }
        },
        _ => {},
    }
}

impl JsonValue {
    /// Reads a JSON document from its text. Each part of the document is
    /// shown in messages as `serde_json` writes it for a programmer to read.
    pub fn parse(text: &str) -> (r: Result<JsonValue, NumngError>)
        ensures
            match r {
                Ok(doc) => document_of(text@) == Some(doc@),
                Err(e) => document_of(text@) is None && e is InvalidJsonError,
            },
    {
        match read_value(text) {
            Ok(value) => Ok(from_value(&value)),
            Err(e) => Err(NumngError::InvalidJsonError(error_message(&e))),
        }
    }

    /// The member of an object under `key`.
    pub fn get(&self, key: &str) -> (r: Option<&JsonValue>)
        ensures
            match r {
                Some(found) => member(self@, key@) == Some(found@),
                None => member(self@, key@) is None,
            },
    {
        match &self.data {
            JsonData::Object(members) => {
                let mut i: usize = 0;
                let ghost shown = self@.data->Object_0;
                while i < members.len()
                    invariant
                        i <= members.len(),
                        self@.data is Object,
                        shown == self@.data->Object_0,
                        shown.len() == members.len(),
                        forall|j: int|
                            0 <= j < members.len() ==> #[trigger] shown[j] == (
                                members[j].0@,
                                members[j].1@,
                            ),
                        forall|j: int| 0 <= j < i ==> (#[trigger] shown[j]).0 != key@,
                    decreases members.len() - i,
                {
                    if crate::text::str_equal(members[i].0.as_str(), key) {
                        proof {
                            lemma_member_index(shown, key@);
                            assert(shown[i as int].0 == key@);
                            match member_index(shown, key@) {
                                Some(k) => {
                                },
                                None => {},
                            }
                        }
                        return Some(&members[i].1);
                    }
                    i += 1;
                }
                proof {
                    lemma_member_index(shown, key@);
                }
                None
            },
            _ => None,
        }
    }
}

} // verus!
