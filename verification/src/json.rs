//! The bridge to `serde_json`, which reads and writes the document's text.
//!
//! `serde_json` works on a tree of its own, `serde_json::Value`. [`from_json`]
//! and [`to_json`] turn that tree into a [`Json`] and back, one level at a
//! time, and [`parse`] and [`print`] go on from there to the text.
//!
//! Nothing in `serde_json` is verified. What this library assumes of it stands
//! in the first half of this file: the declarations of its types, the names
//! for what its values hold and for what its reader and writer return, and a
//! contract for each of its functions that is called. The contracts hold for
//! `serde_json` with its feature `preserve_order`, under which an object keeps
//! its entries in the order of insertion.

use vstd::prelude::*;
use crate::errors::LoadError;
use crate::number::JsonNumber;
use crate::value::{
    entries_view, items_view, lemma_view_mapping, lemma_view_sequence, Json, JsonView,
};

verus! {

/// `serde_json::Value`, the tree that `serde_json` reads and writes.
#[verifier::external_type_specification]
#[verifier::external_body]
pub struct ExValue(serde_json::Value);

/// `serde_json::Number`, a number in that tree.
#[verifier::external_type_specification]
#[verifier::external_body]
pub struct ExNumber(serde_json::Number);

/// `serde_json::Error`, what `serde_json` reports when it fails.
#[verifier::external_type_specification]
#[verifier::external_body]
pub struct ExError(serde_json::Error);

/// The tree that a `serde_json::Value` holds.
pub uninterp spec fn json_content(value: serde_json::Value) -> JsonView;

/// The integer that a `serde_json::Number` holds, `None` where it holds a
/// float.
pub uninterp spec fn integer_in(number: serde_json::Number) -> Option<int>;

/// The tree that `serde_json::from_str` reads from a text, `None` where it
/// reports an error.
pub uninterp spec fn parsed_text(text: Seq<char>) -> Option<JsonView>;

/// The text that `serde_json::to_string` writes for a tree, `None` where it
/// reports an error.
pub uninterp spec fn printed_text(document: JsonView) -> Option<Seq<char>>;

/// One level of a `serde_json::Value`: its kind, and what it holds directly.
pub enum SerdeNode {
    Null,
    Bool(bool),
    Number(serde_json::Number),
    String(String),
    Array(Vec<serde_json::Value>),
    Object(Vec<(String, serde_json::Value)>),
}

/// The trees that the values in `items` hold, in order.
pub open spec fn items_content(items: Seq<serde_json::Value>) -> Seq<JsonView> {
    Seq::new(items.len(), |i: int| json_content(items[i]))
}

/// The keys in `entries` with the trees that their values hold, in order.
pub open spec fn entries_content(entries: Seq<(String, serde_json::Value)>) -> Seq<
    (Seq<char>, JsonView),
> {
    Seq::new(entries.len(), |i: int| (entries[i].0@, json_content(entries[i].1)))
}

impl SerdeNode {
    /// The tree that the node stands for.
    pub open spec fn content(self) -> JsonView {
        match self {
            SerdeNode::Null => JsonView::Null,
            SerdeNode::Bool(b) => JsonView::Bool(b),
            SerdeNode::Number(n) => JsonView::Number(JsonNumber::of(n)),
            SerdeNode::String(s) => JsonView::String(s@),
            SerdeNode::Array(items) => JsonView::Sequence(items_content(items@)),
            SerdeNode::Object(entries) => JsonView::Mapping(entries_content(entries@)),
        }
    }

    /// An object's entries have distinct keys.
    pub open spec fn wf(self) -> bool {
        self matches SerdeNode::Object(entries) ==> JsonView::distinct_keys(
            entries_content(entries@),
        )
    }
}

/// Takes a `serde_json::Value` apart by matching on its variants. An object's
/// entries come in the order in which its `serde_json::Map` hands them out,
/// and a map holds no key twice.
#[verifier::external_body]
pub(crate) fn json_open(value: serde_json::Value) -> (node: SerdeNode)
    ensures
        node.content() == json_content(value),
        node.wf(),
{
    match value {
        serde_json::Value::Null => SerdeNode::Null,
        serde_json::Value::Bool(b) => SerdeNode::Bool(b),
        serde_json::Value::Number(n) => SerdeNode::Number(n),
        serde_json::Value::String(s) => SerdeNode::String(s),
        serde_json::Value::Array(items) => SerdeNode::Array(items),
        serde_json::Value::Object(map) => SerdeNode::Object(map.into_iter().collect()),
    }
}

/// Builds a `serde_json::Value` of the variant that the node names. An object
/// is collected into a `serde_json::Map`, which inserts the entries one by
/// one: entries with distinct keys stay as they are, in the order given.
#[verifier::external_body]
pub(crate) fn json_close(node: SerdeNode) -> (value: serde_json::Value)
    requires
        node.wf(),
    ensures
        json_content(value) == node.content(),
{
    match node {
        SerdeNode::Null => serde_json::Value::Null,
        SerdeNode::Bool(b) => serde_json::Value::Bool(b),
        SerdeNode::Number(n) => serde_json::Value::Number(n),
        SerdeNode::String(s) => serde_json::Value::String(s),
        SerdeNode::Array(items) => serde_json::Value::Array(items),
        SerdeNode::Object(entries) => serde_json::Value::Object(entries.into_iter().collect()),
    }
}

/// `serde_json::Number::as_i128`: the value of an integer, which lies between
/// `i64::MIN` and `u64::MAX`, and `None` for a float.
#[verifier::external_body]
pub(crate) fn number_integer(number: &serde_json::Number) -> (r: Option<i128>)
    ensures
        match r {
            Some(v) => integer_in(*number) == Some(v as int) && i64::MIN <= v <= u64::MAX,
            None => integer_in(*number) is None,
        },
{
    number.as_i128()
}

/// `From<u64>` for `serde_json::Number`: the integer `v`.
#[verifier::external_body]
pub(crate) fn number_of_u64(v: u64) -> (number: serde_json::Number)
    ensures
        integer_in(number) == Some(v as int),
{
    serde_json::Number::from(v)
}

/// `From<i64>` for `serde_json::Number`: the integer `v`.
#[verifier::external_body]
pub(crate) fn number_of_i64(v: i64) -> (number: serde_json::Number)
    ensures
        integer_in(number) == Some(v as int),
{
    serde_json::Number::from(v)
}

/// `Clone` for `serde_json::Number`: the same number.
pub assume_specification[ <serde_json::Number as Clone>::clone ](
    number: &serde_json::Number,
) -> (r: serde_json::Number)
    ensures
        r == *number,
;

/// `serde_json::from_str`, read as a `serde_json::Value`.
#[verifier::external_body]
pub(crate) fn text_to_json(text: &str) -> (r: Result<serde_json::Value, serde_json::Error>)
    ensures
        match r {
            Ok(value) => parsed_text(text@) == Some(json_content(value)),
            Err(_) => parsed_text(text@) is None,
        },
{
    serde_json::from_str::<serde_json::Value>(text)
}

/// `serde_json::to_string` of a `serde_json::Value`.
#[verifier::external_body]
pub(crate) fn json_to_text(value: &serde_json::Value) -> (r: Result<String, serde_json::Error>)
    ensures
        match r {
            Ok(text) => printed_text(json_content(*value)) == Some(text@),
            Err(_) => printed_text(json_content(*value)) is None,
        },
{
    serde_json::to_string(value)
}

/// Turns a `serde_json::Value` into the document tree that it holds.
pub fn from_json(value: serde_json::Value) -> (r: Json)
    ensures
        r@ == json_content(value),
        r@.wf(),
    decreases json_content(value),
{
    match json_open(value) {
        SerdeNode::Null => Json::Null,
        SerdeNode::Bool(b) => Json::Bool(b),
        SerdeNode::Number(n) => Json::Number(JsonNumber::from_number(n)),
        SerdeNode::String(s) => Json::String(s),
        SerdeNode::Array(items) => {
            let ghost source = items@;
            let ghost parent = json_content(value);
            let mut out: Vec<Json> = Vec::new();
            for item in iter: items
                invariant
                    iter.seq() == source,
                    parent == JsonView::Sequence(items_content(source)),
                    parent == json_content(value),
                    out@.len() == iter.index(),
                    forall|j: int|
                        0 <= j < out@.len() ==> (#[trigger] out@[j])@ == json_content(source[j])
                            && out@[j]@.wf(),
            {
                proof {
                    let contents = items_content(source);
                    assert(decreases_to!(parent => parent->Sequence_0));
                    assert(decreases_to!(contents => contents[iter.index() as int]));
                }
                let element = from_json(item);
                out.push(element);
            }
            proof {
                lemma_view_sequence(out);
                assert(items_view(out@) =~= items_content(source));
            }
            Json::Sequence(out)
        },
        SerdeNode::Object(entries) => {
            let ghost source = entries@;
            let ghost parent = json_content(value);
            let mut out: Vec<(String, Json)> = Vec::new();
            for entry in iter: entries
                invariant
                    iter.seq() == source,
                    parent == JsonView::Mapping(entries_content(source)),
                    parent == json_content(value),
                    out@.len() == iter.index(),
                    forall|j: int|
                        0 <= j < out@.len() ==> (#[trigger] out@[j]).0@ == source[j].0@
                            && out@[j].1@ == json_content(source[j].1) && out@[j].1@.wf(),
            {
                proof {
                    let contents = entries_content(source);
                    let pair = contents[iter.index() as int];
                    assert(decreases_to!(parent => parent->Mapping_0));
                    assert(decreases_to!(pair => pair.1));
                }
                let (key, inner) = entry;
                let element = from_json(inner);
                out.push((key, element));
            }
            proof {
                lemma_view_mapping(out);
                assert(entries_view(out@) =~= entries_content(source));
            }
            Json::Mapping(out)
        },
    }
}

/// Builds the `serde_json::Value` that holds the document tree.
pub fn to_json(document: &Json) -> (value: serde_json::Value)
    requires
        document@.wf(),
    ensures
        json_content(value) == document@,
    decreases document,
{
    match document {
        Json::Null => json_close(SerdeNode::Null),
        Json::Bool(b) => json_close(SerdeNode::Bool(*b)),
        Json::Number(n) => json_close(SerdeNode::Number(n.to_number())),
        Json::String(s) => json_close(SerdeNode::String(s.clone())),
        Json::Sequence(items) => {
            proof {
                lemma_view_sequence(*items);
            }
            let mut out: Vec<serde_json::Value> = Vec::new();
            let mut index: usize = 0;
            while index < items.len()
                invariant
                    index <= items.len(),
                    document == Json::Sequence(*items),
                    document@ == JsonView::Sequence(items_view(items@)),
                    document@.wf(),
                    out@.len() == index,
                    forall|j: int|
                        0 <= j < index ==> json_content(#[trigger] out@[j]) == items@[j]@,
                decreases items.len() - index,
            {
                proof {
                    assert(document@->Sequence_0 == items_view(items@));
                    assert(items_view(items@)[index as int].wf());
                }
                out.push(to_json(&items[index]));
                index += 1;
            }
            proof {
                assert(items_content(out@) =~= items_view(items@));
            }
            json_close(SerdeNode::Array(out))
        },
        Json::Mapping(entries) => {
            proof {
                lemma_view_mapping(*entries);
            }
            let mut out: Vec<(String, serde_json::Value)> = Vec::new();
            let mut index: usize = 0;
            while index < entries.len()
                invariant
                    index <= entries.len(),
                    document == Json::Mapping(*entries),
                    document@ == JsonView::Mapping(entries_view(entries@)),
                    document@.wf(),
                    out@.len() == index,
                    forall|j: int|
                        0 <= j < index ==> (#[trigger] out@[j]).0@ == entries@[j].0@
                            && json_content(out@[j].1) == entries@[j].1@,
                decreases entries.len() - index,
            {
                proof {
                    assert(entries_view(entries@)[index as int].1.wf());
                }
                let key = entries[index].0.clone();
                out.push((key, to_json(&entries[index].1)));
                index += 1;
            }
            proof {
                assert(entries_content(out@) =~= entries_view(entries@));
            }
            json_close(SerdeNode::Object(out))
        },
    }
}

/// Reads a document from its text.
pub fn parse(text: &str) -> (r: Result<Json, LoadError>)
    ensures
        match r {
            Ok(document) => parsed_text(text@) == Some(document@) && document@.wf(),
            Err(e) => e == LoadError::Malformed && parsed_text(text@) is None,
        },
{
    match text_to_json(text) {
        Ok(value) => Ok(from_json(value)),
        Err(_) => Err(LoadError::Malformed),
    }
}

/// Writes a document as compact text; `None` where `serde_json` refuses it.
pub fn print(document: &Json) -> (r: Option<String>)
    requires
        document@.wf(),
    ensures
        match r {
            Some(text) => printed_text(document@) == Some(text@),
            None => printed_text(document@) is None,
        },
{
    let value = to_json(document);
    match json_to_text(&value) {
        Ok(text) => Some(text),
        Err(_) => None,
    }
}

} // verus!
