//! Values of product requests: parameters, identifiers, errors and redaction.

use crate::json::{field, text_field, tree, trees, Json, Object, Tree};
use crate::text::{
    alphanumeric, byte_len, bytes_within, decimal, decimal_text, is_alphanumeric, is_blank, occurs,
    same, signed_decimal, signed_decimal_text, to_chars, trim, trimmed, has_text,
};
use vstd::prelude::*;
use vstd::string::*;

verus! {

/// Why a product request failed.
pub ghost enum ProductFault {
    InvalidParameter(Seq<char>),
    UnsupportedRequest(Seq<char>),
    Configuration(Seq<char>),
    NotLoggedIn,
    Session(Seq<char>),
    Transport(Seq<char>),
    HttpStatus { status: u16, message: Seq<char> },
    Response(Seq<char>),
}

/// Why a product request failed.
#[derive(Debug, PartialEq, Eq)]
pub enum ProductError {
    InvalidParameter(&'static str),
    UnsupportedRequest(String),
    Configuration(String),
    NotLoggedIn,
    Session(String),
    Transport(String),
    HttpStatus { status: u16, message: String },
    Response(String),
}

impl View for ProductError {
    type V = ProductFault;

    open spec fn view(&self) -> ProductFault {
        match self {
            ProductError::InvalidParameter(name) => ProductFault::InvalidParameter(name@),
            ProductError::UnsupportedRequest(name) => ProductFault::UnsupportedRequest(name@),
            ProductError::Configuration(error) => ProductFault::Configuration(error@),
            ProductError::NotLoggedIn => ProductFault::NotLoggedIn,
            ProductError::Session(error) => ProductFault::Session(error@),
            ProductError::Transport(error) => ProductFault::Transport(error@),
            ProductError::HttpStatus { status, message } => ProductFault::HttpStatus {
                status: *status,
                message: message@,
            },
            ProductError::Response(error) => ProductFault::Response(error@),
        }
    }
}

/// How a fault reads.
pub open spec fn product_fault_text(fault: ProductFault) -> Seq<char> {
    match fault {
        ProductFault::InvalidParameter(name) => "request parameter "@ + name + " is invalid"@,
        ProductFault::UnsupportedRequest(name) => "unsupported product request: "@ + name,
        ProductFault::Configuration(error) => "product API configuration failed: "@ + error,
        ProductFault::NotLoggedIn =>
            "请先登录大乘软件账号：mahayana login（支持支付宝或官方账号）"@,
        ProductFault::Session(error) => "Mahayana account session failed: "@ + error,
        ProductFault::Transport(error) => "Mahayana product API transport failed: "@ + error,
        ProductFault::HttpStatus { status, message } => "Mahayana product API returned HTTP "@
            + decimal(status as nat) + ": "@ + message,
        ProductFault::Response(error) => "Mahayana product API response failed: "@ + error,
    }
}

impl ProductError {
    /// How the error reads.
    pub fn to_text(&self) -> (out: String)
        ensures
            out@ == product_fault_text(self@),
    {
        match self {
            ProductError::InvalidParameter(name) => "request parameter ".to_owned().concat(
                name,
            ).concat(" is invalid"),
            ProductError::UnsupportedRequest(name) => "unsupported product request: ".to_owned().concat(
                name.as_str(),
            ),
            ProductError::Configuration(error) => "product API configuration failed: ".to_owned().concat(
                error.as_str(),
            ),
            ProductError::NotLoggedIn =>
                "请先登录大乘软件账号：mahayana login（支持支付宝或官方账号）".to_owned(),
            ProductError::Session(error) => "Mahayana account session failed: ".to_owned().concat(
                error.as_str(),
            ),
            ProductError::Transport(error) =>
                "Mahayana product API transport failed: ".to_owned().concat(error.as_str()),
            ProductError::HttpStatus { status, message } =>
                "Mahayana product API returned HTTP ".to_owned().concat(
                decimal_text(*status as u64).as_str(),
            ).concat(": ").concat(message.as_str()),
            ProductError::Response(error) =>
                "Mahayana product API response failed: ".to_owned().concat(error.as_str()),
        }
    }
}

/// The trimmed text in a field, unless nothing is left of it.
pub open spec fn optional_text(request: Tree, name: Seq<char>) -> Option<Seq<char>> {
    match text_field(request, name) {
        Some(t) => if is_blank(t) {
            None
        } else {
            Some(trimmed(t))
        },
        None => None,
    }
}

/// The trimmed text in a field that must say something.
pub open spec fn required_text(request: Tree, name: Seq<char>) -> Result<Seq<char>, ProductFault> {
    match optional_text(request, name) {
        Some(t) => Ok(t),
        None => Err(ProductFault::InvalidParameter(name)),
    }
}

/// The trimmed text in a field, unless nothing is left of it.
pub fn optional_string(request: &Json, name: &str) -> (out: Option<String>)
    ensures
        match out {
            Some(t) => optional_text(request@, name@) == Some(t@),
            None => optional_text(request@, name@) is None,
        },
{
    match request.text_field(name) {
        Some(t) => {
            let t = trim(t);
            if t.as_str().is_empty() {
                None
            } else {
                Some(t)
            }
        },
        None => None,
    }
}

/// The trimmed text in a field that must say something.
pub fn required_string(request: &Json, name: &'static str) -> (out: Result<String, ProductError>)
    ensures
        match out {
            Ok(t) => required_text(request@, name@) == Ok::<Seq<char>, ProductFault>(t@),
            Err(error) => required_text(request@, name@) == Err::<Seq<char>, ProductFault>(error@),
        },
{
    match optional_string(request, name) {
        Some(t) => Ok(t),
        None => Err(ProductError::InvalidParameter(name)),
    }
}

/// The identifier in a field: a text that says something, or a number.
pub open spec fn identifier_text(request: Tree, name: Seq<char>) -> Option<Seq<char>> {
    match field(request, name) {
        Some(Tree::Text(t)) => if is_blank(t) {
            None
        } else {
            Some(trimmed(t))
        },
        Some(Tree::Int(n)) => Some(signed_decimal(n)),
        Some(Tree::Float(t)) => Some(t),
        _ => None,
    }
}

/// The identifier in a field: a text that says something, or a number.
pub fn required_identifier(request: &Json, name: &'static str) -> (out: Result<
    String,
    ProductError,
>)
    ensures
        match out {
            Ok(t) => identifier_text(request@, name@) == Some(t@),
            Err(error) => identifier_text(request@, name@) is None && error@
                == ProductFault::InvalidParameter(name@),
        },
{
    match request.get(name) {
        Some(Json::Text(t)) => {
            let t = trim(t.as_str());
            if t.as_str().is_empty() {
                Err(ProductError::InvalidParameter(name))
            } else {
                Ok(t)
            }
        },
        Some(Json::Unsigned(n)) => Ok(decimal_text(*n)),
        Some(Json::Negative(n)) => Ok(signed_decimal_text(*n)),
        Some(Json::Float(f)) => Ok(f.to_text()),
        _ => Err(ProductError::InvalidParameter(name)),
    }
}

/// A character of a path identifier.
pub open spec fn is_identifier_char(c: char) -> bool {
    is_alphanumeric(c) || c == '_' || c == '-' || c == '.'
}

/// An identifier that can stand in a path: short, of plain characters, led by a letter or digit,
/// and without two dots in a row.
pub open spec fn is_safe_identifier(value: Seq<char>) -> bool {
    &&& 0 < byte_len(value) <= 80
    &&& value.len() > 0
    &&& is_alphanumeric(value[0])
    &&& !occurs(value, ".."@)
    &&& forall|i: int| 0 <= i < value.len() ==> is_identifier_char(#[trigger] value[i])
}

fn identifier_chars(chars: &Vec<char>) -> (yes: bool)
    ensures
        yes == forall|i: int| 0 <= i < chars@.len() ==> is_identifier_char(#[trigger] chars@[i]),
{
    let mut i: usize = 0;
    while i < chars.len()
        invariant
            i <= chars@.len(),
            forall|j: int| 0 <= j < i ==> is_identifier_char(#[trigger] chars@[j]),
        decreases chars@.len() - i,
    {
        let c: char = chars[i];
        if !(alphanumeric(c) || c == '_' || c == '-' || c == '.') {
            return false;
        }
        i = i + 1;
    }
    true
}

/// An identifier that can stand in a path, trimmed.
pub fn safe_path_identifier(value: &str, name: &'static str) -> (out: Result<String, ProductError>)
    ensures
        match out {
            Ok(t) => t@ == trimmed(value@) && is_safe_identifier(trimmed(value@)),
            Err(error) => !is_safe_identifier(trimmed(value@)) && error@
                == ProductFault::InvalidParameter(name@),
        },
{
    let value = trim(value);
    let chars = to_chars(value.as_str());
    if chars.len() == 0 {
        return Err(ProductError::InvalidParameter(name));
    }
    proof {
        lemma_some_bytes(value@);
    }
    let short = match bytes_within(value.as_str(), 80) {
        Some(_) => true,
        None => false,
    };
    if !short || !alphanumeric(chars[0]) || has_text(value.as_str(), "..") || !identifier_chars(
        &chars,
    ) {
        return Err(ProductError::InvalidParameter(name));
    }
    Ok(value)
}

proof fn lemma_some_bytes(s: Seq<char>)
    requires
        s.len() > 0,
    ensures
        byte_len(s) > 0,
{
}

/// A safe identifier is one component of a path: it holds no separator and is no step upwards.
pub proof fn lemma_safe_identifier(value: Seq<char>)
    requires
        is_safe_identifier(value),
    ensures
        !value.contains('/'),
        value != ".."@,
        value != "."@,
        !occurs(value, ".."@),
{
    reveal_strlit("..");
    reveal_strlit(".");
    assert forall|i: int| 0 <= i < value.len() implies value[i] != '/' by {
        assert(is_identifier_char(value[i]));
    }
    if value == ".."@ || value == "."@ {
        assert(value[0] == '.');
    }
}

/// A field whose value is never shown.
pub open spec fn is_secret(name: Seq<char>) -> bool {
    ||| name == "token"@
    ||| name == "apiKey"@
    ||| name == "accessToken"@
    ||| name == "refreshToken"@
    ||| name == "productSessionToken"@
}

/// Tests for a field whose value is never shown.
pub fn secret(name: &str) -> (yes: bool)
    ensures
        yes == is_secret(name@),
{
    same(name, "token") || same(name, "apiKey") || same(name, "accessToken") || same(
        name,
        "refreshToken",
    ) || same(name, "productSessionToken")
}

/// A value with every secret field replaced, at any depth.
pub open spec fn redacted(value: Tree) -> Tree
    decreases value,
{
    match value {
        Tree::Object(fields) => Tree::Object(
            Map::new(
                |name: Seq<char>| fields.contains_key(name),
                |name: Seq<char>|
                    if is_secret(name) {
                        Tree::Text("[stored by Mahayana]"@)
                    } else if fields.contains_key(name) {
                        redacted(fields[name])
                    } else {
                        Tree::Null
                    },
            ),
        ),
        Tree::Array(items) => Tree::Array(
            Seq::new(
                items.len(),
                |i: int|
                    if 0 <= i < items.len() {
                        redacted(items[i])
                    } else {
                        Tree::Null
                    },
            ),
        ),
        other => other,
    }
}

fn redact_items(items: &Vec<Json>) -> (out: Vec<Json>)
    ensures
        Tree::Array(trees(out@)) == redacted(Tree::Array(trees(items@))),
    decreases items@,
{
    let mut out: Vec<Json> = Vec::new();
    let mut i: usize = 0;
    while i < items.len()
        invariant
            i <= items@.len(),
            out@.len() == i,
            forall|j: int| 0 <= j < i ==> tree(#[trigger] out@[j]) == redacted(tree(items@[j])),
        decreases items@.len() - i,
    {
        out.push(redact_secrets(&items[i]));
        i = i + 1;
    }
    proof {
        let expected = redacted(Tree::Array(trees(items@)))->Array_0;
        assert(trees(out@) =~= expected);
    }
    out
}

fn redact_fields(object: &Object) -> (out: Object)
    ensures
        Tree::Object(out@) == redacted(Tree::Object(object@)),
    decreases object,
{
    let mut out = Object::new();
    let n: usize = object.len();
    let ghost expected = redacted(Tree::Object(object@))->Object_0;
    let mut i: usize = 0;
    while i < n
        invariant
            i <= n,
            n == object.names().len(),
            expected == redacted(Tree::Object(object@))->Object_0,
            forall|name: Seq<char>| #[trigger]
                out@.contains_key(name) <==> exists|j: int|
                    0 <= j < i && #[trigger] object.names()[j] == name,
            forall|name: Seq<char>| #[trigger]
                out@.contains_key(name) ==> expected.contains_key(name) && out@[name]
                    == expected[name],
        decreases n - i,
    {
        let value = object.value_at(i);
        let name = object.name_at(i);
        let ghost before = out@;
        if secret(name.as_str()) {
            out = out.with_text(name.as_str(), "[stored by Mahayana]");
        } else {
            out = out.with(name.as_str(), redact_secrets(value));
        }
        proof {
            assert forall|key: Seq<char>| #[trigger] out@.contains_key(key) <==> exists|j: int|
                0 <= j < i + 1 && #[trigger] object.names()[j] == key by {
                if out@.contains_key(key) {
                    if key == name@ {
                        assert(object.names()[i as int] == key);
                    } else {
                        assert(before.contains_key(key));
                    }
                }
                if exists|j: int| 0 <= j < i + 1 && #[trigger] object.names()[j] == key {
                    let j = choose|j: int| 0 <= j < i + 1 && #[trigger] object.names()[j] == key;
                    if j < i {
                        assert(before.contains_key(key));
                    }
                }
            }
        }
        i = i + 1;
    }
    proof {
        assert forall|key: Seq<char>|
            object@.contains_key(key) implies #[trigger] out@.contains_key(key) by {
            assert(object.names().contains(key));
        }
        assert(out@ =~= expected);
    }
    out
}

/// Replaces every secret field of a value, at any depth.
pub fn redact_secrets(value: &Json) -> (out: Json)
    ensures
        out@ == redacted(value@),
    decreases value,
{
    match value {
        Json::Object(object) => Json::Object(redact_fields(object)),
        Json::Array(items) => Json::Array(redact_items(items)),
        other => other.copy(),
    }
}

/// No secret is shown at any depth.
pub open spec fn conceals(value: Tree) -> bool
    decreases value,
{
    match value {
        Tree::Object(fields) => forall|name: Seq<char>| #[trigger]
            fields.contains_key(name) ==> (is_secret(name) && fields[name] == Tree::Text(
                "[stored by Mahayana]"@,
            )) || (!is_secret(name) && conceals(fields[name])),
        Tree::Array(items) => forall|i: int|
            0 <= i < items.len() ==> conceals(#[trigger] items[i]),
        _ => true,
    }
}

/// Redaction leaves no secret, whatever the value and however deep the secret.
pub proof fn lemma_redaction_conceals(value: Tree)
    ensures
        conceals(redacted(value)),
    decreases value,
{
    match value {
        Tree::Object(fields) => {
            let shown = redacted(value)->Object_0;
            assert forall|name: Seq<char>| #[trigger] shown.contains_key(name) implies (is_secret(
                name,
            ) && shown[name] == Tree::Text("[stored by Mahayana]"@)) || (!is_secret(name)
                && conceals(shown[name])) by {
                if !is_secret(name) {
                    lemma_redaction_conceals(fields[name]);
                }
            }
        },
        Tree::Array(items) => {
            let shown = redacted(value)->Array_0;
            assert forall|i: int| 0 <= i < shown.len() implies conceals(#[trigger] shown[i]) by {
                lemma_redaction_conceals(items[i]);
            }
        },
        _ => {},
    }
}

/// A value that shows no secret is left as it is, so redacting twice is redacting once.
pub proof fn lemma_redaction_keeps_the_rest(value: Tree)
    requires
        conceals(value),
    ensures
        redacted(value) == value,
    decreases value,
{
    match value {
        Tree::Object(fields) => {
            let again = redacted(value)->Object_0;
            assert forall|name: Seq<char>| fields.contains_key(name) implies again[name]
                == #[trigger] fields[name] by {
                if !is_secret(name) {
                    lemma_redaction_keeps_the_rest(fields[name]);
                }
            }
            assert(again =~= fields);
        },
        Tree::Array(items) => {
            let again = redacted(value)->Array_0;
            assert forall|i: int| 0 <= i < items.len() implies again[i] == #[trigger] items[i] by {
                lemma_redaction_keeps_the_rest(items[i]);
            }
            assert(again =~= items);
        },
        _ => {},
    }
}

/// The fields with the trimmed texts of the request's named fields added.
pub open spec fn with_optional_fields(
    body: Map<Seq<char>, Tree>,
    request: Tree,
    names: Seq<Seq<char>>,
) -> Map<Seq<char>, Tree>
    decreases names.len(),
{
    if names.len() == 0 {
        body
    } else {
        let before = with_optional_fields(body, request, names.drop_last());
        match optional_text(request, names.last()) {
            Some(t) => before.insert(names.last(), Tree::Text(t)),
            None => before,
        }
    }
}

/// The characters of string slices.
pub open spec fn str_texts(names: Seq<&str>) -> Seq<Seq<char>> {
    Seq::new(names.len(), |i: int| names[i]@)
}

/// Adds the trimmed texts of the request's named fields.
pub fn copy_optional_fields(request: &Json, body: Object, names: &Vec<&str>) -> (out: Object)
    ensures
        out@ == with_optional_fields(body@, request@, str_texts(names@)),
{
    let ghost start = body@;
    let mut out = body;
    let mut i: usize = 0;
    while i < names.len()
        invariant
            i <= names@.len(),
            out@ == with_optional_fields(start, request@, str_texts(names@).take(i as int)),
        decreases names@.len() - i,
    {
        proof {
            assert(str_texts(names@).take(i + 1).drop_last() =~= str_texts(names@).take(i as int));
        }
        match optional_string(request, names[i]) {
            Some(t) => {
                out = out.with_text(names[i], t.as_str());
            },
            None => {},
        }
        i = i + 1;
    }
    proof {
        assert(str_texts(names@).take(names@.len() as int) =~= str_texts(names@));
    }
    out
}

} // verus!
