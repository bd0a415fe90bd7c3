//! JSON documents as plain values.

use vstd::prelude::*;

use crate::text::same_text;
use serde_json::Value;

verus! {

/// A JSON value. A number is the IEEE 754 bit pattern of its value as a
/// double, or `None` where it has none. An object lists its members; the
/// first one of a name counts.
#[derive(Debug, PartialEq)]
pub enum Json {
    Null,
    Bool(bool),
    Number(Option<u64>),
    Text(String),
    List(Vec<Json>),
    Object(Vec<(String, Json)>),
}

/// What a `Json` holds.
pub enum JsonView {
    Null,
    Bool(bool),
    Number(Option<u64>),
    Text(Seq<char>),
    List(Seq<JsonView>),
    Object(Seq<(Seq<char>, JsonView)>),
}

impl Json {
    pub open spec fn contents(self) -> JsonView
        decreases self,
    {
        match self {
            Json::Null => JsonView::Null,
            Json::Bool(b) => JsonView::Bool(b),
            Json::Number(n) => JsonView::Number(n),
            Json::Text(s) => JsonView::Text(s@),
            Json::List(items) => JsonView::List(
                Seq::new(
                    items@.len(),
                    |i: int|
                        if 0 <= i < items@.len() {
                            items@[i].contents()
                        } else {
                            JsonView::Null
                        },
                ),
            ),
            Json::Object(members) => JsonView::Object(
                Seq::new(
                    members@.len(),
                    |i: int|
                        if 0 <= i < members@.len() {
                            (members@[i].0@, members@[i].1.contents())
                        } else {
                            (Seq::empty(), JsonView::Null)
                        },
                ),
            ),
        }
    }
}

impl View for Json {
    type V = JsonView;

    open spec fn view(&self) -> JsonView {
        self.contents()
    }
}

/// The value of the first member called `name`.
pub open spec fn member(members: Seq<(Seq<char>, JsonView)>, name: Seq<char>) -> Option<JsonView>
    decreases members.len(),
{
    if members.len() == 0 {
        None
    } else if members[0].0 == name {
        Some(members[0].1)
    } else {
        member(members.drop_first(), name)
    }
}

impl JsonView {
    /// The member called `name`; only an object has members.
    pub open spec fn get(self, name: Seq<char>) -> Option<JsonView> {
        match self {
            JsonView::Object(members) => member(members, name),
            _ => None,
        }
    }

    pub open spec fn text(self) -> Option<Seq<char>> {
        match self {
            JsonView::Text(text) => Some(text),
            _ => None,
        }
    }

    pub open spec fn number(self) -> Option<u64> {
        match self {
            JsonView::Number(n) => n,
            _ => None,
        }
    }

    pub open spec fn list(self) -> Option<Seq<JsonView>> {
        match self {
            JsonView::List(items) => Some(items),
            _ => None,
        }
    }

    /// The text of the member called `name`.
    pub open spec fn text_at(self, name: Seq<char>) -> Option<Seq<char>> {
        match self.get(name) {
            Some(value) => value.text(),
            None => None,
        }
    }

    /// The number of the member called `name`.
    pub open spec fn number_at(self, name: Seq<char>) -> Option<u64> {
        match self.get(name) {
            Some(value) => value.number(),
            None => None,
        }
    }
}

impl Json {
    /// The member called `name`; only an object has members.
    pub fn get(&self, name: &str) -> (r: Option<&Json>)
        ensures
            match r {
                Some(value) => self@.get(name@) == Some(value@),
                None => self@.get(name@) is None,
            },
    {
        match self {
            Json::Object(members) => {
                let ghost views = self@->Object_0;
                let mut i: usize = 0;
                assert(views.skip(0) =~= views);
                while i < members.len()
                    invariant
                        i <= members@.len(),
                        *self == Json::Object(*members),
                        self@ == JsonView::Object(views),
                        views.len() == members@.len(),
                        forall|j: int|
                            0 <= j < views.len() ==> #[trigger] views[j] == (
                                members@[j].0@,
                                members@[j].1@,
                            ),
                        member(views, name@) == member(views.skip(i as int), name@),
                    decreases members@.len() - i,
                {
                    assert(views.skip(i as int).drop_first() =~= views.skip(i + 1));
                    assert(views.skip(i as int)[0] == views[i as int]);
                    if same_text(&members[i].0, name) {
                        return Some(&members[i].1);
                    }
                    i += 1;
                }
                None
            },
            _ => None,
        }
    }

    pub fn text(&self) -> (r: Option<&String>)
        ensures
            match r {
                Some(text) => self@.text() == Some(text@),
                None => self@.text() is None,
            },
    {
        match self {
            Json::Text(text) => Some(text),
            _ => None,
        }
    }

    pub fn number(&self) -> (r: Option<u64>)
        ensures
            r == self@.number(),
    {
        match self {
            Json::Number(n) => *n,
            _ => None,
        }
    }

    /// The text of the member called `name`.
    pub fn text_at(&self, name: &str) -> (r: Option<&String>)
        ensures
            match r {
                Some(text) => self@.text_at(name@) == Some(text@),
                None => self@.text_at(name@) is None,
            },
    {
        match self.get(name) {
            Some(value) => value.text(),
            None => None,
        }
    }

    /// The number of the member called `name`.
    pub fn number_at(&self, name: &str) -> (r: Option<u64>)
        ensures
            r == self@.number_at(name@),
    {
        match self.get(name) {
            Some(value) => value.number(),
            None => None,
        }
    }
}

/// A parsed document of `serde_json`.
#[verifier::external_type_specification]
#[verifier::external_body]
pub struct ExValue(serde_json::Value);

/// The tree that a parsed document holds.
pub uninterp spec fn value_tree(value: Value) -> JsonView;

/// The compact text that a parsed document is written as.
pub uninterp spec fn value_text(value: Value) -> Seq<char>;

/// The document that `bytes` spell, as its tree and its compact text, or
/// `None` where they spell none.
pub uninterp spec fn document(bytes: Seq<u8>) -> Option<(JsonView, Seq<char>)>;

/// `serde_json::from_slice` into a `Value`. The contract names what it reads:
/// whether the bytes are one JSON document, and the tree and text of it, are
/// functions of the bytes.
#[verifier::external_body]
fn parse(bytes: &[u8]) -> (r: Option<Value>)
    ensures
        match r {
            Some(value) => document(bytes@) == Some((value_tree(value), value_text(value))),
            None => document(bytes@) is None,
        },
{
    serde_json::from_slice(bytes).ok()
}

/// The variants of `serde_json::Value`, one by one, with `Number::as_f64` as
/// a bit pattern. The contract names the tree.
#[verifier::external_body]
fn tree_of(value: &Value) -> (r: Json)
    ensures
        r@ == value_tree(*value),
{
    match value {
        Value::Null => Json::Null,
        Value::Bool(flag) => Json::Bool(*flag),
        Value::Number(number) => Json::Number(number.as_f64().map(|n| n.to_bits())),
        Value::String(text) => Json::Text(text.clone()),
        Value::Array(items) => Json::List(items.iter().map(tree_of).collect()),
        Value::Object(members) => {
            Json::Object(members.iter().map(|(k, v)| (k.clone(), tree_of(v))).collect())
        },
    }
}

/// The `Display` form of `serde_json::Value`: the document as compact JSON
/// text. The contract names it.
#[verifier::external_body]
fn text_of(value: &Value) -> (r: String)
    ensures
        r@ == value_text(*value),
{
    value.to_string()
}

/// Read a JSON document, as its tree and its compact text.
pub fn read_document(bytes: &[u8]) -> (r: Option<(Json, String)>)
    ensures
        match r {
            Some((tree, text)) => document(bytes@) == Some((tree@, text@)),
            None => document(bytes@) is None,
        },
{
    match parse(bytes) {
        Some(value) => Some((tree_of(&value), text_of(&value))),
        None => None,
    }
}

/// The first member of a name counts: it is found behind members of other
/// names and hides those behind it, and a name that no member has is not
/// found.
pub proof fn first_members_count(members: Seq<(Seq<char>, JsonView)>, name: Seq<char>, i: int)
    ensures
        0 <= i < members.len() && members[i].0 == name && (forall|j: int|
            0 <= j < i ==> (#[trigger] members[j]).0 != name) ==> member(members, name) == Some(
            members[i].1,
        ),
        member(members, name) is None <==> forall|j: int|
            0 <= j < members.len() ==> (#[trigger] members[j]).0 != name,
    decreases members.len(),
{
    if members.len() > 0 {
        let rest = members.drop_first();
        first_members_count(rest, name, i - 1);
        if members[0].0 != name {
            assert forall|j: int| 0 <= j < rest.len() implies #[trigger] rest[j] == members[j
                + 1] by {}
            if 0 < i < members.len() {
                assert(rest[i - 1] == members[i]);
                if forall|j: int| 0 <= j < i ==> (#[trigger] members[j]).0 != name {
                    assert forall|j: int| 0 <= j < i - 1 implies (#[trigger] rest[j]).0 != name by {
                        assert(members[j + 1].0 != name);
                    }
                }
            }
            if forall|j: int| 0 <= j < members.len() ==> (#[trigger] members[j]).0 != name {
                assert forall|j: int| 0 <= j < rest.len() implies (#[trigger] rest[j]).0
                    != name by {
                    assert(members[j + 1].0 != name);
                }
            }
            if forall|j: int| 0 <= j < rest.len() ==> (#[trigger] rest[j]).0 != name {
                assert forall|j: int| 0 <= j < members.len() implies (#[trigger] members[j]).0
                    != name by {
                    if j > 0 {
                        assert(rest[j - 1].0 != name);
                    }
                }
            }
        } else {
            assert(members[0].0 == name);
        }
    }
}

/// Only an object has members, only a text has a text and only a number is
/// one.
pub proof fn values_are_what_they_are(value: JsonView, name: Seq<char>, text: Seq<char>)
    ensures
        !(value is Object) ==> value.get(name) is None && value.text_at(name) is None
            && value.number_at(name) is None,
        value matches JsonView::Object(members) ==> value.get(name) == member(members, name),
        value.text() == Some(text) <==> value == JsonView::Text(text),
        value.number() is Some ==> value is Number && value->Number_0 == value.number(),
        value.text_at(name) == Some(text) <==> value.get(name) == Some(JsonView::Text(text)),
        value matches JsonView::Number(n) ==> value.number() == n,
        value.get(name) matches Some(JsonView::Number(n)) ==> value.number_at(name) == n,
{
}

} // verus!
