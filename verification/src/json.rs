//! A JSON document as a tree of plain values, and the reading of one from text.

use crate::text::same;
use vstd::prelude::*;

verus! {

/// A JSON document as a mathematical tree. Numbers are kept as their text.
pub enum JsonTree {
    Null,
    Bool(bool),
    Number(Seq<char>),
    Text(Seq<char>),
    Array(Seq<JsonTree>),
    Object(Seq<(Seq<char>, JsonTree)>),
}

/// One member of a JSON object.
pub struct JsonMember {
    pub key: String,
    pub value: JsonValue,
}

/// A JSON document. Numbers are kept as their text; the members of an object
/// are kept in a list, searched from the front.
pub enum JsonValue {
    Null,
    Bool(bool),
    Number(String),
    Text(String),
    Array(Vec<JsonValue>),
    Object(Vec<JsonMember>),
}

/// The tree that a document stands for.
pub open spec fn tree_of(v: JsonValue) -> JsonTree
    decreases v,
{
    match v {
        JsonValue::Null => JsonTree::Null,
        JsonValue::Bool(b) => JsonTree::Bool(b),
        JsonValue::Number(n) => JsonTree::Number(n@),
        JsonValue::Text(s) => JsonTree::Text(s@),
        JsonValue::Array(items) => JsonTree::Array(
            Seq::new(
                items@.len(),
                |i: int|
                    if 0 <= i < items@.len() {
                        tree_of(items@[i])
                    } else {
                        JsonTree::Null
                    },
            ),
        ),
        JsonValue::Object(members) => JsonTree::Object(
            Seq::new(
                members@.len(),
                |i: int|
                    if 0 <= i < members@.len() {
                        (members@[i].key@, tree_of(members@[i].value))
                    } else {
                        (Seq::<char>::empty(), JsonTree::Null)
                    },
            ),
        ),
    }
}

impl View for JsonValue {
    type V = JsonTree;

    open spec fn view(&self) -> JsonTree {
        tree_of(*self)
    }
}

impl DeepView for JsonValue {
    type V = JsonTree;

    open spec fn deep_view(&self) -> JsonTree {
        tree_of(*self)
    }
}

/// The value of the first member named `key` among `members`.
pub open spec fn find_member(members: Seq<(Seq<char>, JsonTree)>, key: Seq<char>) -> Option<
    JsonTree,
>
    decreases members.len(),
{
    if members.len() == 0 {
        None
    } else if members[0].0 == key {
        Some(members[0].1)
    } else {
        find_member(members.drop_first(), key)
    }
}

impl JsonTree {
    /// The member named `key`, where this is an object that has one.
    pub open spec fn member(self, key: Seq<char>) -> Option<JsonTree> {
        match self {
            JsonTree::Object(members) => find_member(members, key),
            _ => None,
        }
    }

    /// The items, where this is an array.
    pub open spec fn items(self) -> Option<Seq<JsonTree>> {
        match self {
            JsonTree::Array(items) => Some(items),
            _ => None,
        }
    }

    /// The characters, where this is a string.
    pub open spec fn text(self) -> Option<Seq<char>> {
        match self {
            JsonTree::Text(s) => Some(s),
            _ => None,
        }
    }

    /// The string under `key`, where there is one.
    pub open spec fn member_text(self, key: Seq<char>) -> Option<Seq<char>> {
        match self.member(key) {
            Some(v) => v.text(),
            None => None,
        }
    }

    /// The string under `key`, or the empty string.
    pub open spec fn member_text_or_empty(self, key: Seq<char>) -> Seq<char> {
        match self.member_text(key) {
            Some(s) => s,
            None => Seq::empty(),
        }
    }

    /// The array under `key`, where there is one.
    pub open spec fn member_items(self, key: Seq<char>) -> Option<Seq<JsonTree>> {
        match self.member(key) {
            Some(v) => v.items(),
            None => None,
        }
    }

    /// The array under `key`, or no items.
    pub open spec fn member_items_or_empty(self, key: Seq<char>) -> Seq<JsonTree> {
        match self.member_items(key) {
            Some(items) => items,
            None => Seq::empty(),
        }
    }
}

impl JsonValue {
    /// The member named `key`, where this is an object that has one.
    pub fn get(&self, key: &str) -> (r: Option<&JsonValue>)
        ensures
            r.deep_view() == self@.member(key@),
    {
        match self {
            JsonValue::Object(members) => {
                let n: usize = members.len();
                let mut i: usize = 0;
                let ghost all = self@->Object_0;
                proof {
                    assert(all.skip(0) =~= all);
                }
                while i < n
                    invariant
                        n == members@.len(),
                        i <= n,
                        all.len() == n,
                        self@.member(key@) == find_member(all, key@),
                        forall|j: int|
                            0 <= j < n ==> all[j] == (members@[j].key@, tree_of(members@[j].value)),
                        find_member(all, key@) == find_member(all.skip(i as int), key@),
                    decreases n - i,
                {
                    proof {
                        assert(all.skip(i as int).drop_first() =~= all.skip(i + 1));
                        assert(all.skip(i as int)[0] == all[i as int]);
                        assert(all.skip(i as int).len() > 0);
                    }
                    if same(members[i].key.as_str(), key) {
                        return Some(&members[i].value);
                    }
                    i = i + 1;
                }
                None
            },
            _ => None,
        }
    }

    /// The items, where this is an array.
    pub fn as_array(&self) -> (r: Option<&Vec<JsonValue>>)
        ensures
            r.deep_view() == self@.items(),
    {
        match self {
            JsonValue::Array(items) => {
                proof {
                    assert(items.deep_view() =~= self@->Array_0);
                }
                Some(items)
            },
            _ => None,
        }
    }

    /// The characters, where this is a string.
    pub fn as_str(&self) -> (r: Option<&str>)
        ensures
            r.deep_view() == self@.text(),
    {
        match self {
            JsonValue::Text(s) => Some(s.as_str()),
            _ => None,
        }
    }

    /// The string under `key`, where there is one.
    pub fn get_str(&self, key: &str) -> (r: Option<&str>)
        ensures
            r.deep_view() == self@.member_text(key@),
    {
        match self.get(key) {
            Some(v) => v.as_str(),
            None => None,
        }
    }

    /// The array under `key`, where there is one.
    pub fn get_array(&self, key: &str) -> (r: Option<&Vec<JsonValue>>)
        ensures
            r.deep_view() == self@.member_items(key@),
    {
        match self.get(key) {
            Some(v) => v.as_array(),
            None => None,
        }
    }
}

/// `serde_json::Value`, a JSON document of the crate `serde_json`. Nothing
/// inside it is visible here.
#[verifier::external_type_specification]
#[verifier::external_body]
pub struct ExJsonDocument(serde_json::Value);

/// `serde_json::Error`, what the reader of `serde_json` reports of a text
/// that is no JSON document.
#[verifier::external_type_specification]
#[verifier::external_body]
pub struct ExJsonError(serde_json::Error);

/// The tree that a `serde_json::Value` holds: its variants one for one, a
/// number by its display text, an object's members in the order in which the
/// value hands them out.
pub uninterp spec fn document_tree(doc: serde_json::Value) -> JsonTree;

/// What `serde_json::from_str` reads from a text: the document's tree, or
/// nothing where the text is not one JSON document.
pub uninterp spec fn json_of_text(text: Seq<char>) -> Option<JsonTree>;

/// `serde_json::from_str` at type `Value` turns a text into a document or
/// fails; which of the two, and the document, depend on the text alone.
#[verifier::external_body]
fn read_document(text: &str) -> (r: Result<serde_json::Value, serde_json::Error>)
    ensures
        match r {
            Ok(doc) => json_of_text(text@) == Some(document_tree(doc)),
            Err(_) => json_of_text(text@) is None,
        },
{
    serde_json::from_str::<serde_json::Value>(text)
}

/// The display text of a `serde_json::Error`. Nothing is claimed of it.
#[verifier::external_body]
fn error_text(error: &serde_json::Error) -> String {
    error.to_string()
}

/// Copies a `serde_json::Value` into a `JsonValue`, variant by variant.
#[verifier::external_body]
fn copy_document(doc: &serde_json::Value) -> (r: JsonValue)
    ensures
        r@ == document_tree(*doc),
{
    match doc {
        serde_json::Value::Null => JsonValue::Null,
        serde_json::Value::Bool(b) => JsonValue::Bool(*b),
        serde_json::Value::Number(n) => JsonValue::Number(n.to_string()),
        serde_json::Value::String(s) => JsonValue::Text(s.clone()),
        serde_json::Value::Array(a) => JsonValue::Array(a.iter().map(copy_document).collect()),
        serde_json::Value::Object(o) => JsonValue::Object(
            o.iter().map(|(k, v)| JsonMember { key: k.clone(), value: copy_document(v) }).collect(),
        ),
    }
}

/// Reads one JSON document from `text`. Where the text is none, the error
/// carries the reader's description of what is wrong with it.
pub fn parse_json(text: &str) -> (r: Result<JsonValue, String>)
    ensures
        match r {
            Ok(v) => json_of_text(text@) == Some(v@),
            Err(_) => json_of_text(text@) is None,
        },
{
    match read_document(text) {
        Ok(doc) => Ok(copy_document(&doc)),
        Err(e) => Err(error_text(&e)),
    }
}

} // verus!
