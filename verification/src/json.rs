//! JSON values.
//!
//! [`Json`] is the value the library reads and builds; its view is a
//! [`JsonTree`], in which an object is a map from keys to values. Text is
//! parsed and printed by `serde_json`; the functions that call it are the only
//! trusted part of this module.
use crate::text::{owned, same};
use vstd::prelude::*;

verus! {

/// `serde_json::Number`, opaque; [`number_tree`] names what it holds.
#[verifier::external_type_specification]
#[verifier::external_body]
pub struct ExNumber(serde_json::Number);

/// `serde_json::Value`, opaque; [`value_tree`] names what it holds.
#[verifier::external_type_specification]
#[verifier::external_body]
pub struct ExValue(serde_json::Value);

/// What a JSON number is.
pub enum NumberTree {
    /// An integer from zero up.
    Unsigned(u64),
    /// An integer below zero.
    Negative(i64),
    /// Any other number.
    Decimal(serde_json::Number),
}

/// What a JSON value is.
pub enum JsonTree {
    Null,
    Bool(bool),
    Number(NumberTree),
    Text(Seq<char>),
    List(Seq<JsonTree>),
    Object(Map<Seq<char>, JsonTree>),
}

/// A JSON value. The entries of an object stand in the order they were put;
/// where a key is repeated the last entry counts.
pub enum Json {
    Null,
    Bool(bool),
    Number(serde_json::Number),
    Text(String),
    List(Vec<Json>),
    Object(Vec<(String, Json)>),
}

/// The outermost layer of a `serde_json::Value`.
pub enum ValueParts {
    Null,
    Bool(bool),
    Number(serde_json::Number),
    Text(String),
    List(Vec<serde_json::Value>),
    Object(Vec<(String, serde_json::Value)>),
}

/// What a `serde_json::Value` holds.
pub uninterp spec fn value_tree(v: serde_json::Value) -> JsonTree;

/// What a `serde_json::Number` holds: an integer as that integer, any other
/// number as itself.
pub uninterp spec fn number_tree(n: serde_json::Number) -> NumberTree;

/// What `serde_json::from_str` makes of a text: a value, or the message of its
/// error.
pub uninterp spec fn json_parsed(text: Seq<char>) -> Result<JsonTree, Seq<char>>;

/// The compact text that `serde_json` prints for a value.
pub uninterp spec fn json_text(tree: JsonTree) -> Seq<char>;

/// The trees of a list of values.
pub open spec fn value_trees(items: Seq<serde_json::Value>) -> Seq<JsonTree> {
    Seq::new(items.len(), |i: int| value_tree(items[i]))
}

/// The map that a list of entries makes, a later entry replacing an earlier.
pub open spec fn value_entries(items: Seq<(String, serde_json::Value)>) -> Map<Seq<char>, JsonTree>
    decreases items.len(),
{
    if items.len() == 0 {
        Map::empty()
    } else {
        value_entries(items.drop_last()).insert(items.last().0@, value_tree(items.last().1))
    }
}

/// Whether no key occurs twice.
pub open spec fn distinct_keys(items: Seq<(String, serde_json::Value)>) -> bool {
    forall|i: int, j: int| 0 <= i < j < items.len() ==> items[i].0@ != items[j].0@
}

proof fn lemma_value_entries(items: Seq<(String, serde_json::Value)>, at: int)
    requires
        distinct_keys(items),
    ensures
        value_entries(items).dom().finite(),
        0 <= at < items.len() ==> value_entries(items).contains_key(items[at].0@) && value_entries(
            items,
        )[items[at].0@] == value_tree(items[at].1),
    decreases items.len(),
{
    if items.len() > 0 {
        lemma_value_entries(items.drop_last(), at);
    }
}

/// The tree whose outermost layer is `parts`.
pub open spec fn parts_tree(parts: ValueParts) -> JsonTree {
    match parts {
        ValueParts::Null => JsonTree::Null,
        ValueParts::Bool(b) => JsonTree::Bool(b),
        ValueParts::Number(n) => JsonTree::Number(number_tree(n)),
        ValueParts::Text(s) => JsonTree::Text(s@),
        ValueParts::List(items) => JsonTree::List(value_trees(items@)),
        ValueParts::Object(items) => JsonTree::Object(value_entries(items@)),
    }
}

/// The integer that a number is, if it fits a signed one.
pub open spec fn signed_value(n: NumberTree) -> Option<i64> {
    match n {
        NumberTree::Unsigned(u) => if u <= i64::MAX {
            Some(u as i64)
        } else {
            None
        },
        NumberTree::Negative(i) => Some(i),
        NumberTree::Decimal(_) => None,
    }
}

/// Matches on a `serde_json::Value` and hands its fields over. An object's
/// entries come as its map yields them, each key once.
#[verifier::external_body]
pub(crate) fn value_parts(v: serde_json::Value) -> (r: ValueParts)
    ensures
        parts_tree(r) == value_tree(v),
        r matches ValueParts::Object(items) ==> distinct_keys(items@),
{
    match v {
        serde_json::Value::Null => ValueParts::Null,
        serde_json::Value::Bool(b) => ValueParts::Bool(b),
        serde_json::Value::Number(n) => ValueParts::Number(n),
        serde_json::Value::String(s) => ValueParts::Text(s),
        serde_json::Value::Array(items) => ValueParts::List(items),
        serde_json::Value::Object(map) => ValueParts::Object(map.into_iter().collect()),
    }
}

/// Builds a `serde_json::Value` from its outermost layer. Collecting the
/// entries into `serde_json::Map` keeps the last value of a repeated key.
#[verifier::external_body]
pub(crate) fn value_of_parts(parts: ValueParts) -> (r: serde_json::Value)
    ensures
        value_tree(r) == parts_tree(parts),
{
    match parts {
        ValueParts::Null => serde_json::Value::Null,
        ValueParts::Bool(b) => serde_json::Value::Bool(b),
        ValueParts::Number(n) => serde_json::Value::Number(n),
        ValueParts::Text(s) => serde_json::Value::String(s),
        ValueParts::List(items) => serde_json::Value::Array(items),
        ValueParts::Object(items) => serde_json::Value::Object(items.into_iter().collect()),
    }
}

/// `serde_json::from_str` into a `serde_json::Value`, an error as its message;
/// [`json_parsed`] names what comes of the text, and nothing more is claimed of
/// it.
#[verifier::external_body]
pub(crate) fn parse_value(text: &str) -> (r: Result<serde_json::Value, String>)
    ensures
        json_parsed(text@) == (match r {
            Ok(v) => Result::<JsonTree, Seq<char>>::Ok(value_tree(v)),
            Err(m) => Err(m@),
        }),
{
    serde_json::from_str::<serde_json::Value>(text).map_err(|error| error.to_string())
}

/// Whether a text holds no control character of ASCII below the space.
pub open spec fn no_controls(s: Seq<char>) -> bool {
    forall|i: int| 0 <= i < s.len() ==> #[trigger] s[i] as u32 >= 32
}

/// The compact text of a `serde_json::Value`, as its `Display` prints it;
/// [`json_text`] names it. The text holds no control character: nothing is
/// written between tokens, and within a text every one is escaped.
#[verifier::external_body]
pub(crate) fn value_text(v: &serde_json::Value) -> (r: String)
    ensures
        r@ == json_text(value_tree(*v)),
        no_controls(r@),
{
    v.to_string()
}

/// `Number::as_u64` gives the integer from zero up that a number is, if it is
/// one.
#[verifier::external_body]
pub(crate) fn number_unsigned(n: &serde_json::Number) -> (r: Option<u64>)
    ensures
        match r {
            Some(u) => number_tree(*n) == NumberTree::Unsigned(u),
            None => !(number_tree(*n) is Unsigned),
        },
{
    n.as_u64()
}

/// `Number::as_i64` gives the integer that a number is, if it is one that fits.
#[verifier::external_body]
pub(crate) fn number_signed(n: &serde_json::Number) -> (r: Option<i64>)
    ensures
        r == signed_value(number_tree(*n)),
{
    n.as_i64()
}

/// `Number::from` of an unsigned integer is that integer.
#[verifier::external_body]
pub(crate) fn number_from_unsigned(u: u64) -> (r: serde_json::Number)
    ensures
        number_tree(r) == NumberTree::Unsigned(u),
{
    serde_json::Number::from(u)
}

/// `Number::from` of an integer below zero is that integer.
#[verifier::external_body]
pub(crate) fn number_from_negative(i: i64) -> (r: serde_json::Number)
    requires
        i < 0,
    ensures
        number_tree(r) == NumberTree::Negative(i),
{
    serde_json::Number::from(i)
}

/// `serde_json::Number`'s `clone` is the same number.
pub assume_specification[ <serde_json::Number as Clone>::clone ](n: &serde_json::Number) -> (r: serde_json::Number)
    ensures
        r == *n,
;

impl JsonTree {
    /// An integer from zero up.
    pub open spec fn unsigned(n: u64) -> JsonTree {
        JsonTree::Number(NumberTree::Unsigned(n))
    }

    /// An integer below zero.
    pub open spec fn negative(n: i64) -> JsonTree {
        JsonTree::Number(NumberTree::Negative(n))
    }

    /// The integer from zero up that a value is, if it is one.
    pub open spec fn as_unsigned(self) -> Option<u64> {
        match self {
            JsonTree::Number(NumberTree::Unsigned(n)) => Some(n),
            _ => None,
        }
    }

    /// The signed integer that a value is, if it is one.
    pub open spec fn as_signed(self) -> Option<i64> {
        match self {
            JsonTree::Number(n) => signed_value(n),
            _ => None,
        }
    }

    /// A signed integer.
    pub open spec fn signed(n: i64) -> JsonTree {
        if n < 0 {
            JsonTree::negative(n)
        } else {
            JsonTree::unsigned(n as u64)
        }
    }

    /// The value under a key of an object.
    pub open spec fn field(self, key: Seq<char>) -> Option<JsonTree> {
        match self {
            JsonTree::Object(map) if map.contains_key(key) => Some(map[key]),
            _ => None,
        }
    }

    /// The text under a key of an object.
    pub open spec fn field_text(self, key: Seq<char>) -> Option<Seq<char>> {
        match self.field(key) {
            Some(JsonTree::Text(s)) => Some(s),
            _ => None,
        }
    }

    /// The unsigned integer under a key of an object.
    pub open spec fn field_unsigned(self, key: Seq<char>) -> Option<u64> {
        match self.field(key) {
            Some(v) => v.as_unsigned(),
            None => None,
        }
    }

    /// The boolean under a key of an object.
    pub open spec fn field_bool(self, key: Seq<char>) -> Option<bool> {
        match self.field(key) {
            Some(JsonTree::Bool(b)) => Some(b),
            _ => None,
        }
    }

    /// The list under a key of an object.
    pub open spec fn field_list(self, key: Seq<char>) -> Option<Seq<JsonTree>> {
        match self.field(key) {
            Some(JsonTree::List(items)) => Some(items),
            _ => None,
        }
    }
}

/// The trees of a list of values.
pub open spec fn trees(items: Seq<Json>) -> Seq<JsonTree>
    decreases items,
{
    if items.len() == 0 {
        Seq::empty()
    } else {
        trees(items.drop_last()).push(items.last().tree())
    }
}

/// The map that a list of entries makes, a later entry replacing an earlier.
pub open spec fn entries(items: Seq<(String, Json)>) -> Map<Seq<char>, JsonTree>
    decreases items,
{
    if items.len() == 0 {
        Map::empty()
    } else {
        entries(items.drop_last()).insert(items.last().0@, items.last().1.tree())
    }
}

impl Json {
    /// What the value is.
    pub open spec fn tree(self) -> JsonTree
        decreases self,
    {
        match self {
            Json::Null => JsonTree::Null,
            Json::Bool(b) => JsonTree::Bool(b),
            Json::Number(n) => JsonTree::Number(number_tree(n)),
            Json::Text(s) => JsonTree::Text(s@),
            Json::List(items) => JsonTree::List(trees(items@)),
            Json::Object(items) => JsonTree::Object(entries(items@)),
        }
    }
}

impl View for Json {
    type V = JsonTree;

    open spec fn view(&self) -> JsonTree {
        self.tree()
    }
}

/// The tree of a value that may be absent.
pub open spec fn option_tree(value: Option<&Json>) -> Option<JsonTree> {
    match value {
        Some(v) => Some(v@),
        None => None,
    }
}

pub proof fn lemma_trees(items: Seq<Json>)
    ensures
        trees(items).len() == items.len(),
        forall|i: int| 0 <= i < items.len() ==> #[trigger] trees(items)[i] == items[i].tree(),
    decreases items.len(),
{
    if items.len() > 0 {
        lemma_trees(items.drop_last());
    }
}

/// Pushing a value pushes its tree.
pub proof fn lemma_trees_push(items: Seq<Json>, item: Json)
    ensures
        trees(items.push(item)) == trees(items).push(item@),
{
    assert(items.push(item).drop_last() =~= items);
}

/// The last entry of a key is what the key maps to; a key without an entry is
/// not in the map.
pub proof fn lemma_entries(items: Seq<(String, Json)>, key: Seq<char>, at: int)
    ensures
        (0 <= at < items.len() && items[at].0@ == key && (forall|j: int|
            at < j < items.len() ==> #[trigger] items[j].0@ != key)) ==> entries(items).contains_key(
            key,
        ) && entries(items)[key] == items[at].1.tree(),
        (forall|j: int| 0 <= j < items.len() ==> #[trigger] items[j].0@ != key) ==> !entries(
            items,
        ).contains_key(key),
    decreases items.len(),
{
    if items.len() > 0 {
        let front = items.drop_last();
        lemma_entries(front, key, at);
        assert(forall|j: int| 0 <= j < front.len() ==> front[j] == items[j]);
    }
}

impl Json {
    /// The value under a key of an object.
    pub fn get(&self, key: &str) -> (r: Option<&Json>)
        ensures
            option_tree(r) == self@.field(key@),
    {
        match self {
            Json::Object(items) => {
                let mut i: usize = items.len();
                while i > 0
                    invariant
                        i <= items@.len(),
                        forall|j: int| i <= j < items@.len() ==> #[trigger] items@[j].0@ != key@,
                        self@ == JsonTree::Object(entries(items@)),
                    decreases i,
                {
                    i -= 1;
                    if same(items[i].0.as_str(), key) {
                        proof {
                            lemma_entries(items@, key@, i as int);
                        }
                        return Some(&items[i].1);
                    }
                }
                proof {
                    lemma_entries(items@, key@, -1);
                }
                None
            },
            _ => None,
        }
    }

    /// The text of a string value.
    pub fn as_str(&self) -> (r: Option<&str>)
        ensures
            match r {
                Some(s) => self@ == JsonTree::Text(s@),
                None => !(self@ is Text),
            },
    {
        match self {
            Json::Text(s) => Some(s.as_str()),
            _ => None,
        }
    }

    /// The value of an integer from zero up.
    pub fn as_u64(&self) -> (r: Option<u64>)
        ensures
            r == self@.as_unsigned(),
    {
        match self {
            Json::Number(n) => number_unsigned(n),
            _ => None,
        }
    }

    /// The value of an integer that fits a signed one.
    pub fn as_i64(&self) -> (r: Option<i64>)
        ensures
            r == self@.as_signed(),
    {
        match self {
            Json::Number(n) => number_signed(n),
            _ => None,
        }
    }

    /// The value of a boolean.
    pub fn as_bool(&self) -> (r: Option<bool>)
        ensures
            match r {
                Some(b) => self@ == JsonTree::Bool(b),
                None => !(self@ is Bool),
            },
    {
        match self {
            Json::Bool(b) => Some(*b),
            _ => None,
        }
    }

    /// The items of a list.
    pub fn as_list(&self) -> (r: Option<&Vec<Json>>)
        ensures
            match r {
                Some(items) => self@ == JsonTree::List(trees(items@)),
                None => !(self@ is List),
            },
    {
        match self {
            Json::List(items) => Some(items),
            _ => None,
        }
    }

    /// Whether the value is an object.
    pub fn is_object(&self) -> (r: bool)
        ensures
            r == (self@ is Object),
    {
        match self {
            Json::Object(_) => true,
            _ => false,
        }
    }

    /// Whether the value is `null`.
    pub fn is_null(&self) -> (r: bool)
        ensures
            r == (self@ is Null),
    {
        match self {
            Json::Null => true,
            _ => false,
        }
    }

    /// The text under a key of an object.
    pub fn get_str(&self, key: &str) -> (r: Option<&str>)
        ensures
            self@.field_text(key@) == (match r {
                Some(s) => Some(s@),
                None => None,
            }),
    {
        match self.get(key) {
            Some(v) => v.as_str(),
            None => None,
        }
    }

    /// The unsigned integer under a key of an object.
    pub fn get_u64(&self, key: &str) -> (r: Option<u64>)
        ensures
            r == self@.field_unsigned(key@),
    {
        match self.get(key) {
            Some(v) => v.as_u64(),
            None => None,
        }
    }

    /// The boolean under a key of an object.
    pub fn get_bool(&self, key: &str) -> (r: Option<bool>)
        ensures
            r == self@.field_bool(key@),
    {
        match self.get(key) {
            Some(v) => v.as_bool(),
            None => None,
        }
    }

    /// The list under a key of an object.
    pub fn get_list(&self, key: &str) -> (r: Option<&Vec<Json>>)
        ensures
            self@.field_list(key@) == (match r {
                Some(items) => Some(trees(items@)),
                None => None,
            }),
    {
        match self.get(key) {
            Some(v) => v.as_list(),
            None => None,
        }
    }

    /// A string value.
    pub fn text(s: &str) -> (r: Json)
        ensures
            r@ == JsonTree::Text(s@),
    {
        Json::Text(owned(s))
    }

    /// An integer from zero up.
    pub fn unsigned(n: u64) -> (r: Json)
        ensures
            r@ == JsonTree::unsigned(n),
    {
        Json::Number(number_from_unsigned(n))
    }

    /// An integer below zero.
    pub fn negative(n: i64) -> (r: Json)
        requires
            n < 0,
        ensures
            r@ == JsonTree::negative(n),
    {
        Json::Number(number_from_negative(n))
    }

    /// A signed integer.
    pub fn signed(n: i64) -> (r: Json)
        ensures
            r@ == JsonTree::signed(n),
    {
        if n < 0 {
            Json::negative(n)
        } else {
            Json::unsigned(n as u64)
        }
    }

    /// An empty object.
    pub fn object() -> (r: Json)
        ensures
            r@ == JsonTree::Object(Map::empty()),
    {
        Json::Object(Vec::new())
    }

    /// Puts a value under a key of an object.
    pub fn put(self, key: &str, value: Json) -> (r: Json)
        requires
            self@ is Object,
        ensures
            r@ == JsonTree::Object(self@->Object_0.insert(key@, value@)),
    {
        match self {
            Json::Object(items) => {
                let mut items = items;
                let ghost before = items@;
                let k = owned(key);
                items.push((k, value));
                proof {
                    assert(items@.drop_last() =~= before);
                }
                Json::Object(items)
            },
            other => other,
        }
    }

    /// A copy of a value.
    pub fn copy(&self) -> (r: Json)
        ensures
            r@ == self@,
        decreases self,
    {
        match self {
            Json::Null => Json::Null,
            Json::Bool(b) => Json::Bool(*b),
            Json::Number(n) => Json::Number(n.clone()),
            Json::Text(s) => Json::Text(s.clone()),
            Json::List(items) => {
                let mut out: Vec<Json> = Vec::new();
                let mut i: usize = 0;
                while i < items.len()
                    invariant
                        i <= items@.len(),
                        *self == Json::List(*items),
                        trees(out@) == trees(items@.take(i as int)),
                    decreases items@.len() - i,
                {
                    let ghost before = out@;
                    assert(decreases_to!(*self => self->List_0));
                    assert(decreases_to!(items => items@));
                    assert(decreases_to!(items@ => items@[i as int]));
                    let item = items[i].copy();
                    out.push(item);
                    assert(out@.drop_last() =~= before);
                    assert(items@.take(i + 1).drop_last() =~= items@.take(i as int));
                    i += 1;
                }
                assert(items@.take(items@.len() as int) =~= items@);
                Json::List(out)
            },
            Json::Object(items) => {
                let mut out: Vec<(String, Json)> = Vec::new();
                let mut i: usize = 0;
                while i < items.len()
                    invariant
                        i <= items@.len(),
                        *self == Json::Object(*items),
                        entries(out@) == entries(items@.take(i as int)),
                    decreases items@.len() - i,
                {
                    let ghost before = out@;
                    assert(decreases_to!(*self => self->Object_0));
                    assert(decreases_to!(items => items@));
                    assert(decreases_to!(items@ => items@[i as int]));
                    assert(decreases_to!(items@[i as int] => items@[i as int].1));
                    let item = items[i].1.copy();
                    out.push((items[i].0.clone(), item));
                    assert(out@.drop_last() =~= before);
                    assert(items@.take(i + 1).drop_last() =~= items@.take(i as int));
                    i += 1;
                }
                assert(items@.take(items@.len() as int) =~= items@);
                Json::Object(out)
            },
        }
    }
}

/// The library's value for a `serde_json::Value`.
pub fn from_value(v: serde_json::Value) -> (r: Json)
    ensures
        r@ == value_tree(v),
    decreases value_tree(v),
{
    match value_parts(v) {
        ValueParts::Null => Json::Null,
        ValueParts::Bool(b) => Json::Bool(b),
        ValueParts::Number(n) => Json::Number(n),
        ValueParts::Text(s) => Json::Text(s),
        ValueParts::List(items) => {
            let mut out: Vec<Json> = Vec::new();
            let ghost all = items@;
            for item in it: items.into_iter()
                invariant
                    it.seq() == all,
                    value_tree(v) == JsonTree::List(value_trees(all)),
                    trees(out@) == value_trees(all).take(it.index()),
            {
                let ghost before = out@;
                let ghost i = it.index();
                assert(item == all[i]);
                assert(decreases_to!(value_tree(v) => value_tree(v)->List_0));
                assert(decreases_to!(value_trees(all) => value_trees(all)[i]));
                out.push(from_value(item));
                assert(out@.drop_last() =~= before);
                assert(value_trees(all).take(i + 1) =~= value_trees(all).take(i).push(
                    value_trees(all)[i],
                ));
            }
            assert(value_trees(all).take(all.len() as int) =~= value_trees(all));
            Json::List(out)
        },
        ValueParts::Object(items) => {
            let mut out: Vec<(String, Json)> = Vec::new();
            let ghost all = items@;
            for item in it: items.into_iter()
                invariant
                    it.seq() == all,
                    distinct_keys(all),
                    value_tree(v) == JsonTree::Object(value_entries(all)),
                    entries(out@) == value_entries(all.take(it.index())),
            {
                let ghost before = out@;
                let ghost i = it.index();
                assert(item == all[i]);
                proof {
                    lemma_value_entries(all, i);
                }
                assert(decreases_to!(value_tree(v) => value_tree(v)->Object_0));
                assert(decreases_to!(value_entries(all) => value_entries(all)[all[i].0@]));
                out.push((item.0, from_value(item.1)));
                assert(out@.drop_last() =~= before);
                assert(all.take(i + 1).drop_last() =~= all.take(i));
            }
            assert(all.take(all.len() as int) =~= all);
            Json::Object(out)
        },
    }
}

/// The `serde_json::Value` of a value.
fn to_value(j: &Json) -> (r: serde_json::Value)
    ensures
        value_tree(r) == j@,
    decreases j,
{
    match j {
        Json::Null => value_of_parts(ValueParts::Null),
        Json::Bool(b) => value_of_parts(ValueParts::Bool(*b)),
        Json::Number(n) => value_of_parts(ValueParts::Number(n.clone())),
        Json::Text(s) => value_of_parts(ValueParts::Text(s.clone())),
        Json::List(items) => {
            let mut out: Vec<serde_json::Value> = Vec::new();
            let mut i: usize = 0;
            while i < items.len()
                invariant
                    i <= items@.len(),
                    *j == Json::List(*items),
                    value_trees(out@) == trees(items@.take(i as int)),
                decreases items@.len() - i,
            {
                let ghost before = out@;
                assert(decreases_to!(*j => j->List_0));
                assert(decreases_to!(items => items@));
                assert(decreases_to!(items@ => items@[i as int]));
                let item = to_value(&items[i]);
                out.push(item);
                assert(value_trees(out@) =~= value_trees(before).push(value_tree(item)));
                assert(items@.take(i + 1).drop_last() =~= items@.take(i as int));
                i += 1;
            }
            assert(items@.take(items@.len() as int) =~= items@);
            value_of_parts(ValueParts::List(out))
        },
        Json::Object(items) => {
            let mut out: Vec<(String, serde_json::Value)> = Vec::new();
            let mut i: usize = 0;
            while i < items.len()
                invariant
                    i <= items@.len(),
                    *j == Json::Object(*items),
                    value_entries(out@) == entries(items@.take(i as int)),
                decreases items@.len() - i,
            {
                let ghost before = out@;
                assert(decreases_to!(*j => j->Object_0));
                assert(decreases_to!(items => items@));
                assert(decreases_to!(items@ => items@[i as int]));
                assert(decreases_to!(items@[i as int] => items@[i as int].1));
                let item = to_value(&items[i].1);
                out.push((items[i].0.clone(), item));
                assert(out@.drop_last() =~= before);
                assert(items@.take(i + 1).drop_last() =~= items@.take(i as int));
                i += 1;
            }
            assert(items@.take(items@.len() as int) =~= items@);
            value_of_parts(ValueParts::Object(out))
        },
    }
}

/// Parses one JSON text.
pub fn parse(text: &str) -> (r: Result<Json, String>)
    ensures
        json_parsed(text@) == (match r {
            Ok(j) => Result::<JsonTree, Seq<char>>::Ok(j@),
            Err(m) => Err(m@),
        }),
{
    match parse_value(text) {
        Ok(v) => Ok(from_value(v)),
        Err(m) => Err(m),
    }
}

/// Prints a value as compact JSON text.
pub fn print(value: &Json) -> (r: String)
    ensures
        r@ == json_text(value@),
        no_controls(r@),
        !r@.contains('\n'),
{
    let v = to_value(value);
    value_text(&v)
}

} // verus!
