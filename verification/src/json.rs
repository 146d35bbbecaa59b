//! The namespace tree as a JSON value, which the template engine reads.

use vstd::prelude::*;
use vstd::string::*;
use crate::namespace::TreeModel;
use crate::namespace::TreeValue;
use crate::namespace::entries_model;

verus! {

/// `serde_json::Value`: a JSON value, which the proofs do not look into.
#[verifier::external_type_specification]
#[verifier::external_body]
pub struct ExJsonValue(serde_json::Value);

/// The tree that a JSON value stands for: a JSON string is a text, a JSON
/// object a group of its entries by name.
pub uninterp spec fn json_tree(value: serde_json::Value) -> TreeModel;

/// `serde_json::Value::String`: the JSON string with the characters of `text`.
#[verifier::external_body]
fn json_text(text: &str) -> (value: serde_json::Value)
    ensures
        json_tree(value) == TreeModel::Leaf(text@),
{
    serde_json::Value::String(text.to_owned())
}

/// `serde_json::Value::Object` of `serde_json::Map::new`: a JSON object
/// without entries.
#[verifier::external_body]
fn json_object() -> (value: serde_json::Value)
    ensures
        json_tree(value) == TreeModel::Node(Map::empty()),
{
    serde_json::Value::Object(serde_json::Map::new())
}

/// `serde_json::Map::insert` on the map of a JSON object: puts the value
/// under the name, in place of a value that was there.
#[verifier::external_body]
fn json_insert(object: &mut serde_json::Value, name: &str, value: serde_json::Value)
    requires
        json_tree(*old(object)) is Node,
    ensures
        json_tree(*final(object)) == TreeModel::Node(
            json_tree(*old(object))->Node_0.insert(name@, json_tree(value)),
        ),
{
    if let serde_json::Value::Object(entries) = object {
        entries.insert(name.to_owned(), value);
    }
}

/// The JSON value that stands for a tree.
pub fn to_json(tree: &TreeValue) -> (value: serde_json::Value)
    ensures
        json_tree(value) == tree@,
    decreases tree,
{
    match tree {
        TreeValue::Leaf(text) => json_text(text.as_str()),
        TreeValue::Node(entries) => {
            let mut object = json_object();
            let mut i: usize = 0;
            while i < entries.len()
                invariant
                    i <= entries.len(),
                    decreases_to!(tree => entries),
                    json_tree(object) == TreeModel::Node(entries_model(entries@, i as nat)),
                decreases entries.len() - i,
            {
                proof {
                    assert(decreases_to!(entries => entries@));
                    assert(decreases_to!(entries@ => entries@[i as int]));
                    assert(decreases_to!(entries@[i as int] => entries@[i as int].1));
                }
                let child = to_json(&entries[i].1);
                json_insert(&mut object, entries[i].0.as_str(), child);
                i += 1;
            }
            object
        },
    }
}

} // verus!
