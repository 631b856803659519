//! JSON text: reading and printing goes through serde_json.

use crate::json::{
    field_or_null, items_field, number_is_f64, number_text, text_field, tree, trees, Float, Json, Object, Tree,
};
use crate::order::{lemma_precedes_asymmetric, precedes};
use vstd::prelude::*;
use vstd::string::*;

verus! {

/// A value as serde_json holds it; its content is opaque here.
#[verifier::external_type_specification]
#[verifier::external_body]
pub struct ExSerdeValue(serde_json::Value);

/// The tree that a serde_json value holds.
pub uninterp spec fn serde_tree(value: serde_json::Value) -> Tree;

/// How deep a serde_json value nests.
pub uninterp spec fn serde_depth(value: serde_json::Value) -> nat;

/// The variant of a serde_json value, with what stands directly below it.
pub enum Parts<'a> {
    Null,
    Bool(bool),
    Unsigned(u64),
    Negative(i64),
    Float(&'a serde_json::Number),
    Text(&'a String),
    Array(&'a Vec<serde_json::Value>),
    Object(Vec<(&'a String, &'a serde_json::Value)>),
}

/// The trees of serde_json values, in their order.
pub open spec fn serde_trees(items: Seq<serde_json::Value>) -> Seq<Tree> {
    Seq::new(items.len(), |i: int| serde_tree(items[i]))
}

/// The trees of listed entries; a later entry takes the place of an earlier one with its name.
pub open spec fn entry_trees(entries: Seq<(String, serde_json::Value)>) -> Map<Seq<char>, Tree>
    decreases entries.len(),
{
    if entries.len() == 0 {
        Map::empty()
    } else {
        entry_trees(entries.drop_last()).insert(entries.last().0@, serde_tree(entries.last().1))
    }
}

/// Borrowed entries as entries.
pub open spec fn owned<'a>(entries: Seq<(&'a String, &'a serde_json::Value)>) -> Seq<
    (String, serde_json::Value),
> {
    Seq::new(entries.len(), |i: int| (*entries[i].0, *entries[i].1))
}

/// The tree of a value in parts.
pub open spec fn parts_tree<'a>(parts: Parts<'a>) -> Tree {
    match parts {
        Parts::Null => Tree::Null,
        Parts::Bool(b) => Tree::Bool(b),
        Parts::Unsigned(n) => Tree::Int(n as int),
        Parts::Negative(n) => Tree::Int(n as int),
        Parts::Float(number) => Tree::Float(number_text(*number)),
        Parts::Text(t) => Tree::Text(t@),
        Parts::Array(items) => Tree::Array(serde_trees(items@)),
        Parts::Object(entries) => Tree::Object(entry_trees(owned(entries@))),
    }
}

/// What stands directly below a value nests less deep than it.
pub open spec fn parts_below<'a>(parts: Parts<'a>, depth: nat) -> bool {
    match parts {
        Parts::Array(items) => forall|i: int|
            0 <= i < items@.len() ==> serde_depth(#[trigger] items@[i]) < depth,
        Parts::Object(entries) => forall|i: int|
            0 <= i < entries@.len() ==> serde_depth(*(#[trigger] entries@[i]).1) < depth,
        _ => true,
    }
}

/// The variants of `serde_json::Value`, one for one; a `serde_json::Number` is told apart by
/// `as_u64` and `as_i64`, which answer for its two kinds of whole number, so that what is left is
/// a number of which `is_f64` holds.
#[verifier::external_body]
fn take_apart<'a>(value: &'a serde_json::Value) -> (out: Parts<'a>)
    ensures
        serde_tree(*value) == parts_tree(out),
        parts_below(out, serde_depth(*value)),
        out matches Parts::Float(number) ==> number_is_f64(*number),
{
    match value {
        serde_json::Value::Null => Parts::Null,
        serde_json::Value::Bool(b) => Parts::Bool(*b),
        serde_json::Value::Number(number) => match (number.as_u64(), number.as_i64()) {
            (Some(n), _) => Parts::Unsigned(n),
            (None, Some(n)) => Parts::Negative(n),
            (None, None) => Parts::Float(number),
        },
        serde_json::Value::String(text) => Parts::Text(text),
        serde_json::Value::Array(items) => Parts::Array(items),
        serde_json::Value::Object(fields) => Parts::Object(fields.iter().collect()),
    }
}

/// Takes a value over from serde_json.
pub fn from_serde(value: &serde_json::Value) -> (out: Json)
    ensures
        out@ == serde_tree(*value),
    decreases serde_depth(*value),
{
    match take_apart(value) {
        Parts::Null => Json::Null,
        Parts::Bool(b) => Json::Bool(b),
        Parts::Unsigned(n) => Json::Unsigned(n),
        Parts::Negative(n) => Json::Negative(n),
        Parts::Float(number) => Json::Float(Float::of(number)),
        Parts::Text(t) => Json::Text(t.clone()),
        Parts::Array(items) => {
            let mut out: Vec<Json> = Vec::new();
            let mut i: usize = 0;
            while i < items.len()
                invariant
                    i <= items@.len(),
                    out@.len() == i,
                    forall|j: int| 0 <= j < items@.len() ==> serde_depth(#[trigger] items@[j])
                        < serde_depth(*value),
                    forall|j: int| 0 <= j < i ==> tree(#[trigger] out@[j]) == serde_tree(items@[j]),
                decreases items@.len() - i,
            {
                out.push(from_serde(&items[i]));
                i = i + 1;
            }
            proof {
                assert(trees(out@) =~= serde_trees(items@));
            }
            Json::Array(out)
        },
        Parts::Object(entries) => {
            let mut out: Object = Object::new();
            let mut i: usize = 0;
            let ghost all = owned(entries@);
            while i < entries.len()
                invariant
                    i <= entries@.len(),
                    all == owned(entries@),
                    forall|j: int| 0 <= j < entries@.len() ==> serde_depth(
                        *(#[trigger] entries@[j]).1,
                    ) < serde_depth(*value),
                    out@ == entry_trees(all.take(i as int)),
                decreases entries@.len() - i,
            {
                let entry = &entries[i];
                proof {
                    assert(all.take(i + 1).drop_last() =~= all.take(i as int));
                }
                out = out.with(entry.0.as_str(), from_serde(entry.1));
                i = i + 1;
            }
            proof {
                assert(all.take(entries@.len() as int) =~= all);
            }
            Json::Object(out)
        },
    }
}

/// A value to be put together for serde_json.
pub enum Pieces {
    Null,
    Bool(bool),
    Unsigned(u64),
    Negative(i64),
    Float(serde_json::Number),
    Text(String),
    Array(Vec<serde_json::Value>),
    Object(Vec<(String, serde_json::Value)>),
}

/// The tree of a value in pieces.
pub open spec fn pieces_tree(pieces: Pieces) -> Tree {
    match pieces {
        Pieces::Null => Tree::Null,
        Pieces::Bool(b) => Tree::Bool(b),
        Pieces::Unsigned(n) => Tree::Int(n as int),
        Pieces::Negative(n) => Tree::Int(n as int),
        Pieces::Float(number) => Tree::Float(number_text(number)),
        Pieces::Text(t) => Tree::Text(t@),
        Pieces::Array(items) => Tree::Array(serde_trees(items@)),
        Pieces::Object(entries) => Tree::Object(entry_trees(entries@)),
    }
}

/// No two entries have the same name.
pub open spec fn distinct_names(entries: Seq<(String, serde_json::Value)>) -> bool {
    forall|i: int, j: int| #![trigger entries[i], entries[j]]
        0 <= i < j < entries.len() ==> entries[i].0@ != entries[j].0@
}

/// The variants of `serde_json::Value`, one for one. Entries whose names differ are collected into
/// a `serde_json::Map` that has them all.
#[verifier::external_body]
fn put_together(pieces: Pieces) -> (out: serde_json::Value)
    requires
        pieces matches Pieces::Float(number) ==> number_is_f64(number),
        pieces matches Pieces::Object(entries) ==> distinct_names(entries@),
    ensures
        serde_tree(out) == pieces_tree(pieces),
{
    match pieces {
        Pieces::Null => serde_json::Value::Null,
        Pieces::Bool(b) => serde_json::Value::Bool(b),
        Pieces::Unsigned(n) => serde_json::Value::Number(n.into()),
        Pieces::Negative(n) => serde_json::Value::Number(n.into()),
        Pieces::Float(number) => serde_json::Value::Number(number),
        Pieces::Text(text) => serde_json::Value::String(text),
        Pieces::Array(items) => serde_json::Value::Array(items),
        Pieces::Object(entries) => serde_json::Value::Object(entries.into_iter().collect()),
    }
}

/// Hands a value over to serde_json.
pub fn to_serde(value: &Json) -> (out: serde_json::Value)
    ensures
        serde_tree(out) == value@,
    decreases value,
{
    match value {
        Json::Null => put_together(Pieces::Null),
        Json::Bool(b) => put_together(Pieces::Bool(*b)),
        Json::Unsigned(n) => put_together(Pieces::Unsigned(*n)),
        Json::Negative(n) => put_together(Pieces::Negative(*n)),
        Json::Float(f) => put_together(Pieces::Float(f.to_number())),
        Json::Text(t) => put_together(Pieces::Text(t.clone())),
        Json::Array(items) => {
            proof {
                assert(decreases_to!(*value => value->Array_0));
            }
            let mut out: Vec<serde_json::Value> = Vec::new();
            let mut i: usize = 0;
            while i < items.len()
                invariant
                    i <= items@.len(),
                    out@.len() == i,
                    decreases_to!(*value => *items),
                    forall|j: int| 0 <= j < i ==> serde_tree(#[trigger] out@[j]) == tree(items@[j]),
                decreases items@.len() - i,
            {
                out.push(to_serde(&items[i]));
                i = i + 1;
            }
            proof {
                assert(serde_trees(out@) =~= trees(items@));
            }
            put_together(Pieces::Array(out))
        },
        Json::Object(object) => {
            proof {
                assert(decreases_to!(*value => value->Object_0));
            }
            let mut out: Vec<(String, serde_json::Value)> = Vec::new();
            let n: usize = object.len();
            let mut i: usize = 0;
            while i < n
                invariant
                    i <= n,
                    n == object.names().len(),
                    decreases_to!(*value => *object),
                    forall|j: int, k: int| #![trigger object.names()[j], object.names()[k]]
                        0 <= j < k < n ==> precedes(object.names()[j], object.names()[k]),
                    out@.len() == i,
                    forall|j: int| 0 <= j < i ==> (#[trigger] out@[j]).0@ == object.names()[j],
                    forall|name: Seq<char>| #[trigger]
                        entry_trees(out@).contains_key(name) <==> exists|j: int|
                            0 <= j < i && #[trigger] object.names()[j] == name,
                    forall|name: Seq<char>| #[trigger]
                        entry_trees(out@).contains_key(name) ==> object@.contains_key(name)
                            && entry_trees(out@)[name] == object@[name],
                decreases n - i,
            {
                let item = object.value_at(i);
                let name = object.name_at(i);
                let ghost before = out@;
                out.push((name.clone(), to_serde(item)));
                proof {
                    assert(out@.drop_last() =~= before);
                    assert forall|key: Seq<char>| #[trigger]
                        entry_trees(out@).contains_key(key) <==> exists|j: int|
                            0 <= j < i + 1 && #[trigger] object.names()[j] == key by {
                        if entry_trees(out@).contains_key(key) {
                            if key == name@ {
                                assert(object.names()[i as int] == key);
                            } else {
                                assert(entry_trees(before).contains_key(key));
                            }
                        }
                        if exists|j: int| 0 <= j < i + 1 && #[trigger] object.names()[j] == key {
                            let j = choose|j: int|
                                0 <= j < i + 1 && #[trigger] object.names()[j] == key;
                            if j < i {
                                assert(entry_trees(before).contains_key(key));
                            }
                        }
                    }
                    assert forall|key: Seq<char>| #[trigger]
                        entry_trees(out@).contains_key(key) implies object@.contains_key(key)
                        && entry_trees(out@)[key] == object@[key] by {
                        if key != name@ {
                            assert(entry_trees(before).contains_key(key));
                        }
                    }
                }
                i = i + 1;
            }
            proof {
                assert(entry_trees(out@) =~= object@) by {
                    assert forall|key: Seq<char>|
                        object@.contains_key(key) implies #[trigger] entry_trees(
                        out@,
                    ).contains_key(key) by {
                        assert(object.names().contains(key));
                    }
                }
                assert forall|j: int, k: int| #![trigger out@[j], out@[k]]
                    0 <= j < k < out@.len() implies out@[j].0@ != out@[k].0@ by {
                    assert(precedes(object.names()[j], object.names()[k]));
                    if object.names()[j] == object.names()[k] {
                        lemma_precedes_asymmetric(object.names()[j], object.names()[k]);
                    }
                }
            }
            put_together(Pieces::Object(out))
        },
    }
}

/// A value without numbers other than whole ones, whose arrays and objects nest at most `levels`
/// deep.
pub open spec fn plain(value: Tree, levels: nat) -> bool
    decreases levels,
{
    match value {
        Tree::Float(_) => false,
        Tree::Array(items) => levels > 0 && forall|i: int|
            0 <= i < items.len() ==> plain(#[trigger] items[i], (levels - 1) as nat),
        Tree::Object(fields) => levels > 0 && forall|name: Seq<char>| #[trigger]
            fields.contains_key(name) ==> plain(fields[name], (levels - 1) as nat),
        _ => true,
    }
}

/// A value whose arrays and objects nest at most `levels` deep.
pub open spec fn nests(value: Tree, levels: nat) -> bool
    decreases levels,
{
    match value {
        Tree::Array(items) => levels > 0 && forall|i: int|
            0 <= i < items.len() ==> nests(#[trigger] items[i], (levels - 1) as nat),
        Tree::Object(fields) => levels > 0 && forall|name: Seq<char>| #[trigger]
            fields.contains_key(name) ==> nests(fields[name], (levels - 1) as nat),
        _ => true,
    }
}

/// What nests at most so deep nests at most deeper.
pub proof fn lemma_nests_deeper(value: Tree, levels: nat, more: nat)
    requires
        nests(value, levels),
        levels <= more,
    ensures
        nests(value, more),
    decreases levels,
{
    match value {
        Tree::Array(items) => {
            assert forall|i: int| 0 <= i < items.len() implies nests(
                #[trigger] items[i],
                (more - 1) as nat,
            ) by {
                lemma_nests_deeper(items[i], (levels - 1) as nat, (more - 1) as nat);
            }
        },
        Tree::Object(fields) => {
            assert forall|name: Seq<char>| #[trigger] fields.contains_key(name) implies nests(
                fields[name],
                (more - 1) as nat,
            ) by {
                lemma_nests_deeper(fields[name], (levels - 1) as nat, (more - 1) as nat);
            }
        },
        _ => {},
    }
}

/// A field nests less deep than the value that has it.
pub proof fn lemma_field_nests(value: Tree, name: Seq<char>, levels: nat)
    requires
        nests(value, levels),
        levels > 0,
    ensures
        nests(field_or_null(value, name), (levels - 1) as nat),
{
}

/// Two values that differ at most in numbers that are not whole.
pub open spec fn alike(a: Tree, b: Tree) -> bool
    decreases a,
{
    match (a, b) {
        (Tree::Float(_), Tree::Float(_)) => true,
        (Tree::Array(x), Tree::Array(y)) => x.len() == y.len() && forall|i: int| #![trigger x[i]]
            0 <= i < x.len() ==> alike(x[i], y[i]),
        (Tree::Object(x), Tree::Object(y)) => x.dom() == y.dom() && forall|name: Seq<char>|
            #![trigger x[name]]
            x.contains_key(name) ==> alike(x[name], y[name]),
        _ => a == b,
    }
}

/// Values that are alike have the same text in a field, and alike items.
pub proof fn lemma_alike_fields(a: Tree, b: Tree, name: Seq<char>)
    requires
        alike(a, b),
    ensures
        text_field(a, name) == text_field(b, name),
        items_field(a, name) is Some <==> items_field(b, name) is Some,
        items_field(a, name) matches Some(x) ==> {
            let y = items_field(b, name)->0;
            &&& x.len() == y.len()
            &&& forall|i: int| #![trigger x[i]] 0 <= i < x.len() ==> alike(x[i], y[i])
        },
{
    if let (Tree::Object(x), Tree::Object(y)) = (a, b) {
        assert(x.contains_key(name) <==> y.contains_key(name));
        if x.contains_key(name) {
            assert(alike(x[name], y[name]));
        }
    }
}

/// The nesting that reading accepts.
pub const NESTING: u8 = 127;

/// What serde_json reads from a text: the tree, or its error message.
pub uninterp spec fn json_parse(text: Seq<char>) -> Result<Tree, Seq<char>>;

/// Reading `text` gives `value`.
pub open spec fn reads_as(text: Seq<char>, value: Tree) -> bool {
    json_parse(text) == Ok::<Tree, Seq<char>>(value)
}

/// What reading gives back of a value that was printed as `text` and does not nest deeper than
/// reading accepts: the value itself, where its numbers are whole. Reading a number that is not
/// whole may change it, since serde_json multiplies its digits and a power of ten as floating-point
/// numbers; for the at most seventeen digits of a number that was printed, the product is finite.
/// Nothing else of the value changes.
pub open spec fn reads_back(text: Seq<char>, value: Tree) -> bool {
    &&& plain(value, NESTING as nat) ==> reads_as(text, value)
    &&& nests(value, NESTING as nat) ==> json_parse(text) is Ok
    &&& json_parse(text) matches Ok(found) ==> alike(found, value)
}

/// The text that serde_json prints for a tree on one line.
pub uninterp spec fn json_compact(value: Tree) -> Seq<char>;

/// The text that serde_json prints for a tree over several lines.
pub uninterp spec fn json_pretty(value: Tree) -> Seq<char>;

/// `serde_json::from_str` into a `serde_json::Value`, a function of the text alone. A text that
/// nests deeper than the recursion limit allows is refused.
#[verifier::external_body]
fn read_serde(text: &str) -> (out: Result<serde_json::Value, String>)
    ensures
        match out {
            Ok(value) => json_parse(text@) == Ok::<Tree, Seq<char>>(serde_tree(value)) && nests(
                serde_tree(value),
                NESTING as nat,
            ),
            Err(message) => json_parse(text@) == Err::<Tree, Seq<char>>(message@),
        },
{
    serde_json::from_str::<serde_json::Value>(text).map_err(|error| error.to_string())
}

/// The `Display` output of a `serde_json::Value`, a function of what it holds. Reading it gives
/// the value back, up to numbers that are not whole.
#[verifier::external_body]
fn print_serde(value: &serde_json::Value) -> (out: String)
    ensures
        out@ == json_compact(serde_tree(*value)),
        reads_back(out@, serde_tree(*value)),
{
    value.to_string()
}

/// The alternate `Display` output of a `serde_json::Value`, which is what
/// `serde_json::to_string_pretty` gives for it. Reading it gives the value back, up to numbers
/// that are not whole; a line end behind it, which is white space, changes nothing of that.
#[verifier::external_body]
fn print_serde_pretty(value: &serde_json::Value) -> (out: String)
    ensures
        out@ == json_pretty(serde_tree(*value)),
        reads_back(out@, serde_tree(*value)),
        reads_back(out@ + "\n"@, serde_tree(*value)),
{
    format!("{value:#}")
}

/// Reads a JSON text; a refusal carries serde_json's message. What is read does not nest deeper
/// than reading accepts.
pub fn parse(text: &str) -> (out: Result<Json, String>)
    ensures
        match out {
            Ok(value) => json_parse(text@) == Ok::<Tree, Seq<char>>(value@) && nests(
                value@,
                NESTING as nat,
            ),
            Err(message) => json_parse(text@) == Err::<Tree, Seq<char>>(message@),
        },
{
    match read_serde(text) {
        Ok(value) => Ok(from_serde(&value)),
        Err(message) => Err(message),
    }
}

/// Prints a value on one line.
pub fn compact(value: &Json) -> (out: String)
    ensures
        out@ == json_compact(value@),
        reads_back(out@, value@),
{
    print_serde(&to_serde(value))
}

/// Prints a value over several lines.
pub fn pretty(value: &Json) -> (out: String)
    ensures
        out@ == json_pretty(value@),
        reads_back(out@, value@),
        reads_back(out@ + "\n"@, value@),
{
    print_serde_pretty(&to_serde(value))
}

} // verus!
