//! JSON values, and the mathematical trees that they stand for.

use crate::text::same;
use crate::text_map::{keyed_at, listed, TextMap};
use vstd::prelude::*;

verus! {

/// What a JSON value is: numbers are integers, or the text of a number with a fraction or an
/// exponent.
pub ghost enum Tree {
    Null,
    Bool(bool),
    Int(int),
    Float(Seq<char>),
    Text(Seq<char>),
    Array(Seq<Tree>),
    Object(Map<Seq<char>, Tree>),
}

/// A JSON value.
#[derive(Debug, PartialEq, Eq)]
pub enum Json {
    Null,
    Bool(bool),
    /// A whole number that is not negative.
    Unsigned(u64),
    /// A negative whole number.
    Negative(i64),
    /// Any other number.
    Float(Float),
    Text(String),
    Array(Vec<Json>),
    Object(Object),
}

/// A number with a fraction or an exponent.
#[derive(Debug, PartialEq, Eq)]
pub struct Float {
    number: serde_json::Number,
}

/// The fields of a JSON object.
#[derive(Debug, PartialEq, Eq)]
pub struct Object {
    pub(crate) fields: TextMap<Json>,
}

/// A number as serde_json holds it; its content is opaque here.
#[verifier::external_type_specification]
#[verifier::external_body]
pub struct ExSerdeNumber(serde_json::Number);

/// The text that serde_json prints for a number.
pub uninterp spec fn number_text(number: serde_json::Number) -> Seq<char>;

/// What `serde_json::Number::is_f64` says of a number: serde_json holds it as a floating-point
/// number.
pub uninterp spec fn number_is_f64(number: serde_json::Number) -> bool;

/// `serde_json::Number` as text: its `Display` output, a function of the number alone.
#[verifier::external_body]
fn print_number(number: &serde_json::Number) -> (out: String)
    ensures
        out@ == number_text(*number),
{
    number.to_string()
}

/// `serde_json::Number::clone` gives the same number.
#[verifier::external_body]
fn copy_number(number: &serde_json::Number) -> (out: serde_json::Number)
    ensures
        out == *number,
{
    number.clone()
}

impl View for Float {
    type V = Seq<char>;

    closed spec fn view(&self) -> Seq<char> {
        number_text(self.number)
    }
}

impl Float {
    #[verifier::type_invariant]
    spec fn well_formed(self) -> bool {
        number_is_f64(self.number)
    }

    /// The number's text.
    pub fn to_text(&self) -> (out: String)
        ensures
            out@ == self@,
    {
        print_number(&self.number)
    }

    pub(crate) fn of(number: &serde_json::Number) -> (out: Float)
        requires
            number_is_f64(*number),
        ensures
            out@ == number_text(*number),
    {
        Float { number: copy_number(number) }
    }

    pub(crate) fn to_number(&self) -> (out: serde_json::Number)
        ensures
            number_text(out) == self@,
            number_is_f64(out),
    {
        proof {
            use_type_invariant(self);
        }
        copy_number(&self.number)
    }
}

/// The tree of a value.
pub open spec fn tree(value: Json) -> Tree
    decreases value,
{
    match value {
        Json::Null => Tree::Null,
        Json::Bool(b) => Tree::Bool(b),
        Json::Unsigned(n) => Tree::Int(n as int),
        Json::Negative(n) => Tree::Int(n as int),
        Json::Float(f) => Tree::Float(f@),
        Json::Text(t) => Tree::Text(t@),
        Json::Array(items) => Tree::Array(trees(items@)),
        Json::Object(object) => Tree::Object(object_trees(object)),
    }
}

/// The trees of values, in their order.
pub open spec fn trees(items: Seq<Json>) -> Seq<Tree>
    decreases items,
{
    Seq::new(
        items.len(),
        |i: int|
            if 0 <= i < items.len() {
                tree(items[i])
            } else {
                Tree::Null
            },
    )
}

/// The trees of an object's fields, under their names.
pub closed spec fn object_trees(object: Object) -> Map<Seq<char>, Tree>
    decreases object,
{
    field_trees(object.fields.entries@)
}

/// The trees of fields, under their names.
pub(crate) closed spec fn field_trees(entries: Seq<(String, Json)>) -> Map<Seq<char>, Tree>
    decreases entries,
{
    Map::new(
        |key: Seq<char>| exists|i: int| keyed_at(entries, key, i),
        |key: Seq<char>|
            {
                let i = choose|i: int| keyed_at(entries, key, i);
                if 0 <= i < entries.len() {
                    tree(entries[i].1)
                } else {
                    Tree::Null
                }
            },
    )
}

proof fn lemma_field_trees(fields: TextMap<Json>)
    ensures
        field_trees(fields.entries@).dom() == fields@.dom(),
        forall|key: Seq<char>| #[trigger]
            fields@.contains_key(key) ==> field_trees(fields.entries@)[key] == tree(fields@[key]),
{
    let entries = fields.entries@;
    fields.lemma_view();
    assert(field_trees(entries).dom() =~= listed(entries).dom());
    assert forall|key: Seq<char>| #[trigger] listed(entries).contains_key(key) implies field_trees(
        entries,
    )[key] == tree(listed(entries)[key]) by {
        let i = choose|i: int| keyed_at(entries, key, i);
        assert(keyed_at(entries, key, i));
    }
}

impl View for Json {
    type V = Tree;

    open spec fn view(&self) -> Tree {
        tree(*self)
    }
}

impl View for Object {
    type V = Map<Seq<char>, Tree>;

    open spec fn view(&self) -> Map<Seq<char>, Tree> {
        object_trees(*self)
    }
}

/// The field of an object; nothing else has fields.
pub open spec fn field(value: Tree, name: Seq<char>) -> Option<Tree> {
    match value {
        Tree::Object(fields) => fields.get(name),
        _ => None,
    }
}

/// The tree of a value, or why there is none.
pub open spec fn json_result(result: Result<Json, String>) -> Result<Tree, Seq<char>> {
    match result {
        Ok(value) => Ok(value@),
        Err(message) => Err(message@),
    }
}

/// The text of a text value.
pub open spec fn text_of(value: Tree) -> Option<Seq<char>> {
    match value {
        Tree::Text(t) => Some(t),
        _ => None,
    }
}

/// The flag of a boolean.
pub open spec fn flag_of(value: Tree) -> Option<bool> {
    match value {
        Tree::Bool(b) => Some(b),
        _ => None,
    }
}

/// The items of an array.
pub open spec fn items_of(value: Tree) -> Option<Seq<Tree>> {
    match value {
        Tree::Array(items) => Some(items),
        _ => None,
    }
}

/// The whole number in the range of `u64`.
pub open spec fn unsigned_of(value: Tree) -> Option<u64> {
    match value {
        Tree::Int(n) => if 0 <= n <= u64::MAX {
            Some(n as u64)
        } else {
            None
        },
        _ => None,
    }
}

/// The whole number in the range of `i64`.
pub open spec fn signed_of(value: Tree) -> Option<i64> {
    match value {
        Tree::Int(n) => if i64::MIN <= n <= i64::MAX {
            Some(n as i64)
        } else {
            None
        },
        _ => None,
    }
}

/// The text in a field.
pub open spec fn text_field(value: Tree, name: Seq<char>) -> Option<Seq<char>> {
    match field(value, name) {
        Some(v) => text_of(v),
        None => None,
    }
}

/// The flag in a field.
pub open spec fn flag_field(value: Tree, name: Seq<char>) -> Option<bool> {
    match field(value, name) {
        Some(v) => flag_of(v),
        None => None,
    }
}

/// The items in a field.
pub open spec fn items_field(value: Tree, name: Seq<char>) -> Option<Seq<Tree>> {
    match field(value, name) {
        Some(v) => items_of(v),
        None => None,
    }
}

/// The field of a field.
pub open spec fn inner_field(value: Tree, outer: Seq<char>, inner: Seq<char>) -> Option<Tree> {
    match field(value, outer) {
        Some(v) => field(v, inner),
        None => None,
    }
}

/// The text in a field of a field.
pub open spec fn inner_text(value: Tree, outer: Seq<char>, inner: Seq<char>) -> Option<Seq<char>> {
    match field(value, outer) {
        Some(v) => text_field(v, inner),
        None => None,
    }
}

/// A field, or null where there is none.
pub open spec fn field_or_null(value: Tree, name: Seq<char>) -> Tree {
    match field(value, name) {
        Some(v) => v,
        None => Tree::Null,
    }
}

/// The fields of an object; none of anything else.
pub open spec fn fields_of(value: Tree) -> Map<Seq<char>, Tree> {
    match value {
        Tree::Object(fields) => fields,
        _ => Map::empty(),
    }
}

/// An optional text as a value.
pub open spec fn text_or_null(value: Option<Seq<char>>) -> Tree {
    match value {
        Some(t) => Tree::Text(t),
        None => Tree::Null,
    }
}

/// Texts as values.
pub open spec fn text_trees(items: Seq<String>) -> Seq<Tree> {
    Seq::new(items.len(), |i: int| Tree::Text(items[i]@))
}

impl Object {
    /// The object without fields.
    pub fn new() -> (out: Object)
        ensures
            out@ == Map::<Seq<char>, Tree>::empty(),
    {
        let out = Object { fields: TextMap::new() };
        proof {
            lemma_field_trees(out.fields);
            assert(out@ =~= Map::<Seq<char>, Tree>::empty());
        }
        out
    }

    /// The object with a field set.
    pub fn with(self, name: &str, value: Json) -> (out: Object)
        ensures
            out@ == self@.insert(name@, value@),
    {
        let mut fields = self.fields;
        proof {
            lemma_field_trees(fields);
        }
        fields.insert(name.to_owned(), value);
        let out = Object { fields };
        proof {
            lemma_field_trees(out.fields);
            assert(out@ =~= self@.insert(name@, value@));
        }
        out
    }

    /// The object with a text field set.
    pub fn with_text(self, name: &str, value: &str) -> (out: Object)
        ensures
            out@ == self@.insert(name@, Tree::Text(value@)),
    {
        self.with(name, Json::Text(value.to_owned()))
    }

    /// The value of a field.
    pub fn get(&self, name: &str) -> (out: Option<&Json>)
        ensures
            match out {
                Some(value) => self@.contains_key(name@) && self@[name@] == value@,
                None => !self@.contains_key(name@),
            },
    {
        proof {
            lemma_field_trees(self.fields);
        }
        self.fields.get(name)
    }

    /// The names of the fields in ascending order.
    pub closed spec fn names(&self) -> Seq<Seq<char>> {
        self.fields.keys()
    }

    /// The number of fields. Their names ascend and are those of the object.
    pub fn len(&self) -> (n: usize)
        ensures
            n == self.names().len(),
            forall|i: int, j: int| #![trigger self.names()[i], self.names()[j]]
                0 <= i < j < self.names().len() ==> crate::order::precedes(
                    self.names()[i],
                    self.names()[j],
                ),
            forall|name: Seq<char>| #[trigger]
                self@.contains_key(name) <==> self.names().contains(name),
    {
        proof {
            lemma_field_trees(self.fields);
        }
        let n: usize = self.fields.len();
        proof {
            assert forall|name: Seq<char>| #[trigger]
                self@.contains_key(name) <==> self.names().contains(name) by {
                assert(self.fields@.contains_key(name) <==> self.fields.keys().contains(name));
            }
        }
        n
    }

    /// The name of the field at a position.
    pub fn name_at(&self, i: usize) -> (name: &String)
        requires
            i < self.names().len(),
        ensures
            name@ == self.names()[i as int],
    {
        self.fields.key_at(i)
    }

    /// The value of the field at a position.
    pub fn value_at(&self, i: usize) -> (value: &Json)
        requires
            i < self.names().len(),
        ensures
            self@.contains_key(self.names()[i as int]),
            self@[self.names()[i as int]] == value@,
            decreases_to!(*self => *value),
    {
        proof {
            lemma_field_trees(self.fields);
        }
        self.fields.value_at(i)
    }
}

/// Copies values.
pub fn copy_all(items: &Vec<Json>) -> (out: Vec<Json>)
    ensures
        trees(out@) == trees(items@),
    decreases items@,
{
    let mut out: Vec<Json> = Vec::new();
    let mut i: usize = 0;
    while i < items.len()
        invariant
            i <= items@.len(),
            out@.len() == i,
            forall|j: int| 0 <= j < i ==> tree(#[trigger] out@[j]) == tree(items@[j]),
        decreases items@.len() - i,
    {
        out.push(items[i].copy());
        i = i + 1;
    }
    proof {
        assert(trees(out@) =~= trees(items@));
    }
    out
}

impl Object {
    /// The same fields again.
    pub fn copy(&self) -> (out: Object)
        ensures
            out@ == self@,
        decreases self,
    {
        let mut out = Object::new();
        let n: usize = self.len();
        let mut i: usize = 0;
        while i < n
            invariant
                i <= n,
                n == self.names().len(),
                forall|name: Seq<char>| #[trigger]
                    out@.contains_key(name) <==> exists|j: int|
                        0 <= j < i && #[trigger] self.names()[j] == name,
                forall|name: Seq<char>| #[trigger]
                    out@.contains_key(name) ==> self@.contains_key(name) && out@[name]
                        == self@[name],
            decreases n - i,
        {
            let value = self.value_at(i);
            let name = self.name_at(i);
            let ghost before = out@;
            out = out.with(name.as_str(), value.copy());
            proof {
                assert forall|key: Seq<char>| #[trigger] out@.contains_key(key) <==> exists|j: int|
                    0 <= j < i + 1 && #[trigger] self.names()[j] == key by {
                    if out@.contains_key(key) {
                        if key == name@ {
                            assert(self.names()[i as int] == key);
                        } else {
                            assert(before.contains_key(key));
                        }
                    }
                    if exists|j: int| 0 <= j < i + 1 && #[trigger] self.names()[j] == key {
                        let j = choose|j: int| 0 <= j < i + 1 && #[trigger] self.names()[j] == key;
                        if j < i {
                            assert(before.contains_key(key));
                        }
                    }
                }
            }
            i = i + 1;
        }
        proof {
            assert(out@ =~= self@) by {
                assert forall|key: Seq<char>| self@.contains_key(key) implies #[trigger] out@.contains_key(
                    key,
                ) by {
                    assert(self.names().contains(key));
                }
            }
        }
        out
    }
}

impl Json {
    /// The same value again.
    pub fn copy(&self) -> (out: Json)
        ensures
            out@ == self@,
        decreases self,
    {
        match self {
            Json::Null => Json::Null,
            Json::Bool(b) => Json::Bool(*b),
            Json::Unsigned(n) => Json::Unsigned(*n),
            Json::Negative(n) => Json::Negative(*n),
            Json::Float(f) => Json::Float(Float::of(&f.to_number())),
            Json::Text(t) => Json::Text(t.clone()),
            Json::Array(items) => Json::Array(copy_all(items)),
            Json::Object(object) => Json::Object(object.copy()),
        }
    }

    /// A text value.
    pub fn text(value: &str) -> (out: Json)
        ensures
            out@ == Tree::Text(value@),
    {
        Json::Text(value.to_owned())
    }

    /// A whole number.
    pub fn whole(value: i64) -> (out: Json)
        ensures
            out@ == Tree::Int(value as int),
    {
        if value < 0 {
            Json::Negative(value)
        } else {
            Json::Unsigned(value as u64)
        }
    }

    /// A text, or null in place of none.
    pub fn text_or_null(value: Option<&str>) -> (out: Json)
        ensures
            out@ == text_or_null(
                match value {
                    Some(t) => Some(t@),
                    None => None,
                },
            ),
    {
        match value {
            Some(t) => Json::Text(t.to_owned()),
            None => Json::Null,
        }
    }

    /// An array of texts.
    pub fn texts(values: &Vec<String>) -> (out: Json)
        ensures
            out@ == Tree::Array(text_trees(values@)),
    {
        let mut items: Vec<Json> = Vec::new();
        let mut i: usize = 0;
        while i < values.len()
            invariant
                i <= values@.len(),
                items@.len() == i,
                forall|j: int| 0 <= j < i ==> tree(#[trigger] items@[j]) == Tree::Text(values@[j]@),
            decreases values@.len() - i,
        {
            items.push(Json::Text(values[i].clone()));
            i = i + 1;
        }
        proof {
            assert(trees(items@) =~= text_trees(values@));
        }
        Json::Array(items)
    }

    /// The value of a field.
    pub fn get(&self, name: &str) -> (out: Option<&Json>)
        ensures
            match out {
                Some(value) => field(self@, name@) == Some(value@),
                None => field(self@, name@) is None,
            },
    {
        match self {
            Json::Object(object) => object.get(name),
            _ => None,
        }
    }

    /// The text of a text value.
    pub fn as_text(&self) -> (out: Option<&str>)
        ensures
            match out {
                Some(t) => text_of(self@) == Some(t@),
                None => text_of(self@) is None,
            },
    {
        match self {
            Json::Text(t) => Some(t.as_str()),
            _ => None,
        }
    }

    /// The flag of a boolean.
    pub fn as_flag(&self) -> (out: Option<bool>)
        ensures
            out == flag_of(self@),
    {
        match self {
            Json::Bool(b) => Some(*b),
            _ => None,
        }
    }

    /// The items of an array.
    pub fn as_items(&self) -> (out: Option<&Vec<Json>>)
        ensures
            match out {
                Some(items) => items_of(self@) == Some(trees(items@)),
                None => items_of(self@) is None,
            },
    {
        match self {
            Json::Array(items) => Some(items),
            _ => None,
        }
    }

    /// The fields of an object.
    pub fn as_object(&self) -> (out: Option<&Object>)
        ensures
            match out {
                Some(object) => self@ == Tree::Object(object@),
                None => !(self@ is Object),
            },
    {
        match self {
            Json::Object(object) => Some(object),
            _ => None,
        }
    }

    /// The whole number that is not negative.
    pub fn as_unsigned(&self) -> (out: Option<u64>)
        ensures
            out == unsigned_of(self@),
    {
        match self {
            Json::Unsigned(n) => Some(*n),
            Json::Negative(n) => if *n >= 0 {
                Some(*n as u64)
            } else {
                None
            },
            _ => None,
        }
    }

    /// The whole number in the range of `i64`.
    pub fn as_signed(&self) -> (out: Option<i64>)
        ensures
            out == signed_of(self@),
    {
        match self {
            Json::Unsigned(n) => if *n <= i64::MAX as u64 {
                Some(*n as i64)
            } else {
                None
            },
            Json::Negative(n) => Some(*n),
            _ => None,
        }
    }

    /// Tests for null.
    pub fn is_null(&self) -> (yes: bool)
        ensures
            yes == (self@ is Null),
    {
        match self {
            Json::Null => true,
            _ => false,
        }
    }

    /// The text in a field.
    pub fn text_field(&self, name: &str) -> (out: Option<&str>)
        ensures
            match out {
                Some(t) => text_field(self@, name@) == Some(t@),
                None => text_field(self@, name@) is None,
            },
    {
        match self.get(name) {
            Some(value) => value.as_text(),
            None => None,
        }
    }

    /// Tests whether a field holds exactly this text.
    pub fn field_is(&self, name: &str, value: &str) -> (yes: bool)
        ensures
            yes == (text_field(self@, name@) == Some(value@)),
    {
        match self.text_field(name) {
            Some(t) => same(t, value),
            None => false,
        }
    }

    /// The flag in a field.
    pub fn flag_field(&self, name: &str) -> (out: Option<bool>)
        ensures
            out == flag_field(self@, name@),
    {
        match self.get(name) {
            Some(value) => value.as_flag(),
            None => None,
        }
    }

    /// The items in a field.
    pub fn items_field(&self, name: &str) -> (out: Option<&Vec<Json>>)
        ensures
            match out {
                Some(items) => items_field(self@, name@) == Some(trees(items@)),
                None => items_field(self@, name@) is None,
            },
    {
        match self.get(name) {
            Some(value) => value.as_items(),
            None => None,
        }
    }

    /// The field of a field.
    pub fn inner_field(&self, outer: &str, inner: &str) -> (out: Option<&Json>)
        ensures
            match out {
                Some(value) => inner_field(self@, outer@, inner@) == Some(value@),
                None => inner_field(self@, outer@, inner@) is None,
            },
    {
        match self.get(outer) {
            Some(value) => value.get(inner),
            None => None,
        }
    }

    /// The text in a field of a field.
    pub fn inner_text(&self, outer: &str, inner: &str) -> (out: Option<&str>)
        ensures
            match out {
                Some(t) => inner_text(self@, outer@, inner@) == Some(t@),
                None => inner_text(self@, outer@, inner@) is None,
            },
    {
        match self.get(outer) {
            Some(value) => value.text_field(inner),
            None => None,
        }
    }

    /// A copy of a field, or null where there is none.
    pub fn field_or_null(&self, name: &str) -> (out: Json)
        ensures
            out@ == field_or_null(self@, name@),
    {
        match self.get(name) {
            Some(value) => value.copy(),
            None => Json::Null,
        }
    }

    /// A copy of the fields; none where the value is no object.
    pub fn fields(&self) -> (out: Object)
        ensures
            out@ == fields_of(self@),
    {
        match self {
            Json::Object(object) => object.copy(),
            _ => Object::new(),
        }
    }
}

impl Clone for Json {
    fn clone(&self) -> (out: Json)
        ensures
            out@ == self@,
    {
        self.copy()
    }
}

/// The items with one more behind them.
pub fn appended(items: Vec<Json>, item: Json) -> (out: Vec<Json>)
    ensures
        trees(out@) == trees(items@).push(item@),
{
    let mut out: Vec<Json> = items;
    let ghost before = out@;
    out.push(item);
    proof {
        assert(trees(out@) =~= trees(before).push(item@));
    }
    out
}

} // verus!
