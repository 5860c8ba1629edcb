//! JSON values.

use vstd::prelude::*;
use vstd::string::*;
use crate::serde_bridge::{
    distinct_keys, json_text, map_entries, map_insert, map_into_entries, new_map, number_from_i64,
    number_text, parsed_json, value_entries, value_from_parts, value_from_slice, value_into_parts,
    value_text, value_tree, value_trees, ValueParts,
};
use crate::text::same_text;

verus! {

/// What a JSON value is. A number is its JSON text; an object is a map from keys to
/// values.
pub enum JsonTree {
    Null,
    Bool(bool),
    Number(Seq<char>),
    Text(Seq<char>),
    Array(Seq<JsonTree>),
    Object(Map<Seq<char>, JsonTree>),
}

/// A JSON value.
///
/// An object is a list of entries. Where a key occurs twice the later entry holds.
#[derive(Debug)]
pub enum Json {
    Null,
    Bool(bool),
    Number(serde_json::Number),
    Text(String),
    Array(Vec<Json>),
    Object(Vec<(String, Json)>),
}

impl View for Json {
    type V = JsonTree;

    open spec fn view(&self) -> JsonTree {
        self.tree()
    }
}

impl Json {
    /// What the value is.
    pub open spec fn tree(self) -> JsonTree
        decreases self,
    {
        match self {
            Json::Null => JsonTree::Null,
            Json::Bool(b) => JsonTree::Bool(b),
            Json::Number(n) => JsonTree::Number(number_text(n)),
            Json::Text(s) => JsonTree::Text(s@),
            Json::Array(items) => JsonTree::Array(item_trees(items@)),
            Json::Object(entries) => JsonTree::Object(entry_trees(entries@)),
        }
    }
}

/// What the items of an array are.
pub open spec fn item_trees(items: Seq<Json>) -> Seq<JsonTree>
    decreases items,
{
    if items.len() == 0 {
        Seq::empty()
    } else {
        item_trees(items.drop_last()).push(items.last().tree())
    }
}

/// The map that a list of entries makes.
pub open spec fn entry_trees(entries: Seq<(String, Json)>) -> Map<Seq<char>, JsonTree>
    decreases entries,
{
    if entries.len() == 0 {
        Map::empty()
    } else {
        entry_trees(entries.drop_last()).insert(entries.last().0@, entries.last().1.tree())
    }
}

/// What stands under a key: nothing where the value is no object or lacks the key.
pub open spec fn tree_field(tree: JsonTree, key: Seq<char>) -> Option<JsonTree> {
    match tree {
        JsonTree::Object(map) => if map.contains_key(key) {
            Some(map[key])
        } else {
            None
        },
        _ => None,
    }
}

/// The text of a value that is a string.
pub open spec fn tree_text(tree: JsonTree) -> Option<Seq<char>> {
    match tree {
        JsonTree::Text(s) => Some(s),
        _ => None,
    }
}

/// The string that stands under a key.
pub open spec fn text_field(tree: JsonTree, key: Seq<char>) -> Option<Seq<char>> {
    match tree_field(tree, key) {
        Some(value) => tree_text(value),
        None => None,
    }
}

/// The view of an optional value.
pub open spec fn optional_tree(json: Option<Json>) -> Option<JsonTree> {
    match json {
        Some(value) => Some(value.tree()),
        None => None,
    }
}

/// The integer `n`.
pub open spec fn integer_tree(n: int) -> JsonTree {
    JsonTree::Number(crate::digits::signed_decimal(n))
}

pub proof fn lemma_item_trees(items: Seq<Json>)
    ensures
        item_trees(items).len() == items.len(),
        forall|i: int| 0 <= i < items.len() ==> item_trees(items)[i] == (#[trigger] items[i]).tree(),
    decreases items.len(),
{
    if items.len() > 0 {
        lemma_item_trees(items.drop_last());
        assert forall|i: int| 0 <= i < items.len() implies item_trees(items)[i] == (
        #[trigger] items[i]).tree() by {
            if i < items.len() - 1 {
                assert(items.drop_last()[i] == items[i]);
            }
        }
    }
}

/// The last entry of a key is the one that holds.
proof fn lemma_last_entry(entries: Seq<(String, Json)>, i: int)
    requires
        0 <= i < entries.len(),
        forall|k: int| i < k < entries.len() ==> (#[trigger] entries[k]).0@ != entries[i].0@,
    ensures
        entry_trees(entries).contains_key(entries[i].0@),
        entry_trees(entries)[entries[i].0@] == entries[i].1.tree(),
    decreases entries.len(),
{
    if i < entries.len() - 1 {
        let front = entries.drop_last();
        assert forall|k: int| i < k < front.len() implies (#[trigger] front[k]).0@
            != front[i].0@ by {
            assert(front[k] == entries[k]);
        }
        lemma_last_entry(front, i);
        assert(entries[entries.len() - 1] == entries.last());
    }
}

/// The keys of the map are the keys of the entries.
pub proof fn lemma_entry_keys(entries: Seq<(String, Json)>, key: Seq<char>)
    ensures
        entry_trees(entries).contains_key(key) <==> exists|i: int|
            0 <= i < entries.len() && (#[trigger] entries[i]).0@ == key,
    decreases entries.len(),
{
    if entries.len() > 0 {
        let front = entries.drop_last();
        lemma_entry_keys(front, key);
        assert(entries[entries.len() - 1] == entries.last());
        if exists|i: int| 0 <= i < front.len() && (#[trigger] front[i]).0@ == key {
            let i = choose|i: int| 0 <= i < front.len() && (#[trigger] front[i]).0@ == key;
            assert(entries[i] == front[i]);
        }
        if exists|i: int| 0 <= i < entries.len() && (#[trigger] entries[i]).0@ == key {
            let i = choose|i: int| 0 <= i < entries.len() && (#[trigger] entries[i]).0@ == key;
            if i < front.len() {
                assert(front[i] == entries[i]);
            }
        }
    }
}

proof fn lemma_value_entries(entries: Seq<(String, serde_json::Value)>)
    requires
        distinct_keys(entries),
    ensures
        value_entries(entries).dom().finite(),
        forall|i: int|
            0 <= i < entries.len() ==> value_entries(entries).contains_key(
                (#[trigger] entries[i]).0@,
            ) && value_entries(entries)[entries[i].0@] == value_tree(entries[i].1),
    decreases entries.len(),
{
    if entries.len() > 0 {
        lemma_value_entries(entries.drop_last());
        assert forall|i: int| 0 <= i < entries.len() implies value_entries(entries).contains_key(
            (#[trigger] entries[i]).0@,
        ) && value_entries(entries)[entries[i].0@] == value_tree(entries[i].1) by {
            if i < entries.len() - 1 {
                assert(entries.drop_last()[i] == entries[i]);
            }
        }
    }
}

/// Adds an entry to the entries of an object.
pub fn add_entry(entries: &mut Vec<(String, Json)>, key: &str, value: Json)
    ensures
        entry_trees(final(entries)@) == entry_trees(old(entries)@).insert(key@, value.tree()),
{
    entries.push((key.to_owned(), value));
    assert(entries@.drop_last() == old(entries)@);
}

impl Json {
    /// A string.
    pub fn text(s: &str) -> (json: Json)
        ensures
            json.tree() == JsonTree::Text(s@),
    {
        Json::Text(s.to_owned())
    }

    /// An integer.
    pub fn integer(n: i64) -> (json: Json)
        ensures
            json.tree() == integer_tree(n as int),
    {
        Json::Number(number_from_i64(n))
    }

    /// The value under a key.
    pub fn get(&self, key: &str) -> (r: Option<&Json>)
        ensures
            tree_field(self.tree(), key@) == match r {
                Some(json) => Some(json.tree()),
                None => None,
            },
    {
        match self {
            Json::Object(entries) => {
                let mut i: usize = entries.len();
                while i > 0
                    invariant
                        i <= entries@.len(),
                        self.tree() == JsonTree::Object(entry_trees(entries@)),
                        forall|k: int| i <= k < entries@.len() ==> (#[trigger] entries@[k]).0@ != key@,
                    decreases i,
                {
                    i = i - 1;
                    if same_text(entries[i].0.as_str(), key) {
                        proof {
                            lemma_last_entry(entries@, i as int);
                        }
                        return Some(&entries[i].1);
                    }
                }
                proof {
                    lemma_entry_keys(entries@, key@);
                }
                None
            },
            _ => None,
        }
    }

    /// The value under a key, taken out of the object.
    pub fn into_field(self, key: &str) -> (r: Option<Json>)
        ensures
            optional_tree(r) == tree_field(self.tree(), key@),
    {
        match self {
            Json::Object(entries) => {
                let ghost all = entries@;
                let mut rest = entries;
                while rest.len() > 0
                    invariant
                        rest@.len() <= all.len(),
                        rest@ == all.take(rest@.len() as int),
                        self.tree() == JsonTree::Object(entry_trees(all)),
                        forall|k: int| rest@.len() <= k < all.len() ==> (#[trigger] all[k]).0@ != key@,
                    decreases rest@.len(),
                {
                    let ghost i = rest@.len() - 1;
                    match rest.pop() {
                        Some((name, value)) => {
                            assert(all[i] == (name, value));
                            if same_text(name.as_str(), key) {
                                proof {
                                    lemma_last_entry(all, i);
                                }
                                return Some(value);
                            }
                        },
                        None => {},
                    }
                    assert(rest@ == all.take(rest@.len() as int));
                }
                proof {
                    lemma_entry_keys(all, key@);
                }
                None
            },
            _ => None,
        }
    }

    /// The text, where the value is a string.
    pub fn as_str(&self) -> (r: Option<&str>)
        ensures
            tree_text(self.tree()) == match r {
                Some(s) => Some(s@),
                None => None,
            },
    {
        match self {
            Json::Text(s) => Some(s.as_str()),
            _ => None,
        }
    }

    /// The string under a key.
    pub fn get_text(&self, key: &str) -> (r: Option<&str>)
        ensures
            text_field(self.tree(), key@) == match r {
                Some(s) => Some(s@),
                None => None,
            },
    {
        match self.get(key) {
            Some(value) => value.as_str(),
            None => None,
        }
    }

    /// The value as compact JSON text.
    pub fn to_text(&self) -> (text: String)
        ensures
            text@ == json_text(self.tree()),
            self.tree() matches JsonTree::Number(number) ==> text@ == number,
    {
        value_text(&self.to_value())
    }

    /// Reads a JSON text.
    pub fn parse(bytes: &[u8]) -> (json: Option<Json>)
        ensures
            optional_tree(json) == parsed_json(bytes@),
    {
        match value_from_slice(bytes) {
            Some(value) => Some(Json::from_value(value)),
            None => None,
        }
    }

    /// The value as a `serde_json` value.
    pub fn to_value(&self) -> (value: serde_json::Value)
        ensures
            value_tree(value) == self.tree(),
        decreases self,
    {
        match self {
            Json::Null => value_from_parts(ValueParts::Null),
            Json::Bool(b) => value_from_parts(ValueParts::Bool(*b)),
            Json::Number(n) => value_from_parts(ValueParts::Number(n.clone())),
            Json::Text(s) => value_from_parts(ValueParts::Text(s.clone())),
            Json::Array(items) => {
                let mut values: Vec<serde_json::Value> = Vec::new();
                let mut i: usize = 0;
                while i < items.len()
                    invariant
                        i <= items@.len(),
                        *self == Json::Array(*items),
                        value_trees(values@) == item_trees(items@.take(i as int)),
                    decreases items@.len() - i,
                {
                    proof {
                        assert(decreases_to!(items@ => items@[i as int]));
                        assert(decreases_to!(items => items@));
                        assert(decreases_to!(*self => self->Array_0));
                    }
                    let ghost before = values@;
                    let value = items[i].to_value();
                    values.push(value);
                    proof {
                        assert(items@.take(i + 1).drop_last() == items@.take(i as int));
                        assert(value_trees(values@) =~= value_trees(before).push(value_tree(value)));
                    }
                    i = i + 1;
                }
                proof {
                    assert(items@.take(items@.len() as int) == items@);
                }
                value_from_parts(ValueParts::Array(values))
            },
            Json::Object(entries) => {
                let mut map = new_map();
                let mut i: usize = 0;
                while i < entries.len()
                    invariant
                        i <= entries@.len(),
                        *self == Json::Object(*entries),
                        map_entries(map) == entry_trees(entries@.take(i as int)),
                    decreases entries@.len() - i,
                {
                    proof {
                        assert(decreases_to!(entries@[i as int] => entries@[i as int].1));
                        assert(decreases_to!(entries@ => entries@[i as int]));
                        assert(decreases_to!(entries => entries@));
                        assert(decreases_to!(*self => self->Object_0));
                    }
                    let value = entries[i].1.to_value();
                    map_insert(&mut map, entries[i].0.clone(), value);
                    proof {
                        assert(entries@.take(i + 1).drop_last() == entries@.take(i as int));
                    }
                    i = i + 1;
                }
                proof {
                    assert(entries@.take(entries@.len() as int) == entries@);
                }
                value_from_parts(ValueParts::Object(map))
            },
        }
    }

    /// The value that a `serde_json` value holds.
    pub fn from_value(value: serde_json::Value) -> (json: Json)
        ensures
            json.tree() == value_tree(value),
        decreases value_tree(value),
    {
        match value_into_parts(value) {
            ValueParts::Null => Json::Null,
            ValueParts::Bool(b) => Json::Bool(b),
            ValueParts::Number(n) => Json::Number(n),
            ValueParts::Text(s) => Json::Text(s),
            ValueParts::Array(values) => {
                let ghost all = values@;
                let mut items: Vec<Json> = Vec::new();
                for item in it: values
                    invariant
                        it.seq() == all,
                        value_tree(value) == JsonTree::Array(value_trees(all)),
                        item_trees(items@) == value_trees(all.take(it.index())),
                {
                    proof {
                        assert(value_trees(all)[it.index()] == value_tree(item));
                        assert(decreases_to!(value_tree(value) => value_tree(value)->Array_0[it.index()]));
                    }
                    let ghost before = items@;
                    items.push(Json::from_value(item));
                    proof {
                        assert(items@.drop_last() == before);
                        assert(value_trees(all.take(it.index() + 1)) =~= value_trees(
                            all.take(it.index()),
                        ).push(value_tree(item)));
                    }
                }
                proof {
                    assert(all.take(all.len() as int) == all);
                }
                Json::Array(items)
            },
            ValueParts::Object(map) => {
                let values = map_into_entries(map);
                let ghost all = values@;
                let mut entries: Vec<(String, Json)> = Vec::new();
                for entry in it: values
                    invariant
                        it.seq() == all,
                        distinct_keys(all),
                        value_tree(value) == JsonTree::Object(value_entries(all)),
                        entry_trees(entries@) == value_entries(all.take(it.index())),
                {
                    proof {
                        lemma_value_entries(all);
                        assert(all[it.index()] == entry);
                        assert(decreases_to!(value_tree(value) => value_tree(value)->Object_0[entry.0@]));
                    }
                    let ghost before = entries@;
                    let item = Json::from_value(entry.1);
                    entries.push((entry.0, item));
                    proof {
                        assert(entries@.drop_last() == before);
                        assert(all.take(it.index() + 1).drop_last() == all.take(it.index()));
                    }
                }
                proof {
                    assert(all.take(all.len() as int) == all);
                }
                Json::Object(entries)
            },
        }
    }
}

/// What stands under a key is what the object holds there.
pub proof fn fields_are_what_objects_hold(tree: JsonTree, key: Seq<char>)
    ensures
        tree_field(tree, key) == crate::plain::field(tree, key),
        text_field(tree, key) == crate::plain::text_under(tree, key),
{
}

/// An array holds its items in their order, and an object what its last entry for a key
/// says.
pub proof fn values_hold_their_parts(items: Seq<Json>, entries: Seq<(String, Json)>)
    ensures
        item_trees(items).len() == items.len(),
        forall|i: int| 0 <= i < items.len() ==> item_trees(items)[i] == (#[trigger] items[i]).tree(),
        forall|i: int|
            0 <= i < entries.len() && (forall|k: int|
                i < k < entries.len() ==> (#[trigger] entries[k]).0@ != entries[i].0@) ==> {
                &&& entry_trees(entries).contains_key((#[trigger] entries[i]).0@)
                &&& entry_trees(entries)[entries[i].0@] == entries[i].1.tree()
            },
        forall|key: Seq<char>| #[trigger]
            entry_trees(entries).contains_key(key) ==> exists|i: int|
                0 <= i < entries.len() && (#[trigger] entries[i]).0@ == key,
{
    lemma_item_trees(items);
    assert forall|i: int|
        0 <= i < entries.len() && (forall|k: int|
            i < k < entries.len() ==> (#[trigger] entries[k]).0@ != entries[i].0@) implies {
        &&& entry_trees(entries).contains_key((#[trigger] entries[i]).0@)
        &&& entry_trees(entries)[entries[i].0@] == entries[i].1.tree()
    } by {
        lemma_last_entry(entries, i);
    }
    assert forall|key: Seq<char>| #[trigger] entry_trees(entries).contains_key(key) implies exists|
        i: int,
    | 0 <= i < entries.len() && (#[trigger] entries[i]).0@ == key by {
        lemma_entry_keys(entries, key);
    }
}

/// A value is what its variant says: strings, booleans and numbers as they are, arrays by
/// their items and objects by their entries.
pub proof fn values_are_what_their_variants_say(json: Json)
    ensures
        match json {
            Json::Null => json@ == JsonTree::Null,
            Json::Bool(b) => json@ == JsonTree::Bool(b),
            Json::Number(n) => json@ == JsonTree::Number(number_text(n)),
            Json::Text(s) => json@ == JsonTree::Text(s@),
            Json::Array(items) => json@ == JsonTree::Array(item_trees(items@)),
            Json::Object(entries) => json@ == JsonTree::Object(entry_trees(entries@)),
        },
        json@ == json.tree(),
        optional_tree(Some(json)) == Some(json@),
        optional_tree(None) is None,
{
}

/// An integer is written in decimal.
pub proof fn integers_are_written_in_decimal(n: int)
    ensures
        integer_tree(n) == JsonTree::Number(crate::digits::signed_decimal(n)),
{
}

} // verus!
