//! Typed fields of JSON objects, with the rules for fields that may be missing.
use crate::json::{lemma_trees, trees, Json, JsonTree};
use vstd::prelude::*;

verus! {

/// The entries that a row of values makes under the first keys of a list.
pub open spec fn keyed(keys: Seq<Seq<char>>, items: Seq<JsonTree>) -> Map<Seq<char>, JsonTree>
    decreases items.len(),
{
    if items.len() == 0 {
        Map::empty()
    } else {
        keyed(keys, items.drop_last()).insert(keys[items.len() - 1], items.last())
    }
}

/// A record as an object. It may also be a list of its fields in order, of which
/// only those behind the first `least` may be missing; a list of another length
/// is no record.
pub open spec fn record(tree: JsonTree, keys: Seq<Seq<char>>, least: nat) -> JsonTree {
    match tree {
        JsonTree::List(items) => if least <= items.len() <= keys.len() {
            JsonTree::Object(keyed(keys, items))
        } else {
            JsonTree::Null
        },
        _ => tree,
    }
}

/// The views of a list of texts.
pub open spec fn str_views(list: Seq<&str>) -> Seq<Seq<char>> {
    list.map_values(|s: &str| s@)
}

/// A record as an object.
pub fn as_record(json: &Json, keys: &Vec<&str>, least: usize) -> (r: Json)
    ensures
        r@ == record(json@, str_views(keys@), least as nat),
{
    let items = match json.as_list() {
        Some(items) => items,
        None => {
            return json.copy();
        },
    };
    let ghost all = trees(items@);
    proof {
        lemma_trees(items@);
    }
    if items.len() < least || items.len() > keys.len() {
        return Json::Null;
    }
    let mut out = Json::object();
    let mut i: usize = 0;
    assert(all.take(0) =~= Seq::<JsonTree>::empty());
    while i < items.len()
        invariant
            i <= items@.len(),
            items@.len() <= keys@.len(),
            all == trees(items@),
            all.len() == items@.len(),
            forall|k: int| 0 <= k < items@.len() ==> #[trigger] all[k] == items@[k]@,
            out@ == JsonTree::Object(keyed(str_views(keys@), all.take(i as int))),
        decreases items@.len() - i,
    {
        proof {
            assert(all.take(i + 1).drop_last() =~= all.take(i as int));
            assert(all.take(i + 1).last() == items@[i as int]@);
            assert(str_views(keys@)[i as int] == keys@[i as int]@);
        }
        out = out.put(keys[i], items[i].copy());
        i += 1;
    }
    assert(all.take(all.len() as int) =~= all);
    out
}

/// A field that may be missing or `null`. The outer option is empty where the
/// field holds something else than it should.
pub open spec fn text_field(tree: JsonTree, key: Seq<char>) -> Option<Option<Seq<char>>> {
    match tree.field(key) {
        None => Some(None),
        Some(JsonTree::Null) => Some(None),
        Some(JsonTree::Text(s)) => Some(Some(s)),
        Some(_) => None,
    }
}

/// An unsigned integer that may be missing or `null`.
pub open spec fn unsigned_field(tree: JsonTree, key: Seq<char>) -> Option<Option<u64>> {
    match tree.field(key) {
        None => Some(None),
        Some(JsonTree::Null) => Some(None),
        Some(v) => match v.as_unsigned() {
            Some(n) => Some(Some(n)),
            None => None,
        },
    }
}

/// A boolean that may be missing or `null`.
pub open spec fn bool_field(tree: JsonTree, key: Seq<char>) -> Option<Option<bool>> {
    match tree.field(key) {
        None => Some(None),
        Some(JsonTree::Null) => Some(None),
        Some(JsonTree::Bool(b)) => Some(Some(b)),
        Some(_) => None,
    }
}

/// A boolean that has a value where it is missing.
pub open spec fn bool_or(tree: JsonTree, key: Seq<char>, default: bool) -> Option<bool> {
    match tree.field(key) {
        None => Some(default),
        Some(JsonTree::Bool(b)) => Some(b),
        Some(_) => None,
    }
}

/// An unsigned integer that is zero where it is missing.
pub open spec fn unsigned_or_zero(tree: JsonTree, key: Seq<char>) -> Option<u64> {
    match tree.field(key) {
        None => Some(0),
        Some(v) => v.as_unsigned(),
    }
}

/// The views of a text field.
pub open spec fn text_field_view(r: Option<Option<&str>>) -> Option<Option<Seq<char>>> {
    match r {
        None => None,
        Some(None) => Some(None),
        Some(Some(s)) => Some(Some(s@)),
    }
}

/// Reads a text that may be missing or `null`.
pub fn get_text<'a>(json: &'a Json, key: &str) -> (r: Option<Option<&'a str>>)
    ensures
        text_field_view(r) == text_field(json@, key@),
{
    match json.get(key) {
        None => Some(None),
        Some(v) => if v.is_null() {
            Some(None)
        } else {
            match v.as_str() {
                Some(s) => Some(Some(s)),
                None => None,
            }
        },
    }
}

/// Reads an unsigned integer that may be missing or `null`.
pub fn get_unsigned(json: &Json, key: &str) -> (r: Option<Option<u64>>)
    ensures
        r == unsigned_field(json@, key@),
{
    match json.get(key) {
        None => Some(None),
        Some(v) => if v.is_null() {
            Some(None)
        } else {
            match v.as_u64() {
                Some(n) => Some(Some(n)),
                None => None,
            }
        },
    }
}

/// Reads a boolean that may be missing or `null`.
pub fn get_boolean(json: &Json, key: &str) -> (r: Option<Option<bool>>)
    ensures
        r == bool_field(json@, key@),
{
    match json.get(key) {
        None => Some(None),
        Some(v) => if v.is_null() {
            Some(None)
        } else {
            match v.as_bool() {
                Some(b) => Some(Some(b)),
                None => None,
            }
        },
    }
}

/// Reads a boolean that has a value where it is missing.
pub fn get_bool_or(json: &Json, key: &str, default: bool) -> (r: Option<bool>)
    ensures
        r == bool_or(json@, key@, default),
{
    match json.get(key) {
        None => Some(default),
        Some(v) => v.as_bool(),
    }
}

/// Reads an unsigned integer that is zero where it is missing.
pub fn get_unsigned_or_zero(json: &Json, key: &str) -> (r: Option<u64>)
    ensures
        r == unsigned_or_zero(json@, key@),
{
    match json.get(key) {
        None => Some(0),
        Some(v) => v.as_u64(),
    }
}

} // verus!
