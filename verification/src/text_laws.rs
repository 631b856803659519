//! What texts and values come to: what taking them apart and putting them together gives back.

use crate::json::{
    field, flag_field, inner_field, inner_text, items_field, signed_of, text_field, unsigned_of,
    Json, Tree,
};
use crate::json_text::json_parse;
use crate::path::{extension, extension_dot, stem};
use crate::product_client::{home_parts, HomeFacts, Platform};
use crate::product_replies::{decoded, HttpReply};
use crate::product_values::{
    identifier_text, is_identifier_char, is_safe_identifier, product_fault_text, redacted,
    ProductFault,
};
use crate::text::{
    ascii_lower, ascii_lowered, byte_len, char_bytes, count_of, decimal, is_alphanumeric, is_blank,
    is_white, joined, left_aligned, occurs, occurs_at, pieces, replaced, right_aligned,
    signed_decimal, trimmed, without_trailing,
};
use crate::url_text::opt_view;
use vstd::prelude::*;
use vstd::string::*;

verus! {

/// White space is what Unicode calls so: the tabulators, line ends and spaces, and none of the
/// characters that names and words are made of.
pub proof fn lemma_white_space(c: char)
    ensures
        c == ' ' || c == '\t' || c == '\n' || c == '\r' ==> is_white(c),
        c == '\u{3000}' || c == '\u{a0}' || c == '\u{85}' || c == '\u{2028}' ==> is_white(c),
        is_alphanumeric(c) ==> !is_white(c),
        33 <= c as u32 <= 126 ==> !is_white(c),
        0x3001 <= c as u32 ==> !is_white(c),
{
}

/// Every character is white space.
pub open spec fn all_white(s: Seq<char>) -> bool {
    forall|i: int| 0 <= i < s.len() ==> is_white(#[trigger] s[i])
}

/// What is trimmed off a text is white space at its two ends, all of it, and nothing else; a text
/// is blank exactly where it is all white space.
pub proof fn lemma_trimming(s: Seq<char>)
    ensures
        exists|a: Seq<char>, b: Seq<char>|
            #![trigger all_white(a), all_white(b)]
            all_white(a) && all_white(b) && s == a + trimmed(s) + b,
        trimmed(s).len() > 0 ==> !is_white(trimmed(s)[0]) && !is_white(trimmed(s).last()),
        is_blank(s) <==> all_white(s),
    decreases s.len(),
{
    let none = Seq::<char>::empty();
    if s.len() > 0 && is_white(s.first()) {
        let rest = s.drop_first();
        lemma_trimming(rest);
        let (a, b) = choose|a: Seq<char>, b: Seq<char>|
            #![trigger all_white(a), all_white(b)]
            all_white(a) && all_white(b) && rest == a + trimmed(rest) + b;
        let front = seq![s.first()] + a;
        assert(all_white(front)) by {
            assert forall|i: int| 0 <= i < front.len() implies is_white(#[trigger] front[i]) by {
                if i > 0 {
                    assert(front[i] == a[i - 1]);
                }
            }
        }
        assert(trimmed(s) == trimmed(rest));
        assert(s =~= seq![s.first()] + rest);
        assert(seq![s.first()] + (a + trimmed(rest) + b) =~= front + trimmed(rest) + b);
        if all_white(rest) {
            assert forall|i: int| 0 <= i < s.len() implies is_white(#[trigger] s[i]) by {
                if i > 0 {
                    assert(s[i] == rest[i - 1]);
                }
            }
        }
        if all_white(s) {
            assert forall|i: int| 0 <= i < rest.len() implies is_white(#[trigger] rest[i]) by {
                assert(rest[i] == s[i + 1]);
            }
        }
    } else if s.len() > 0 && is_white(s.last()) {
        let rest = s.drop_last();
        lemma_trimming(rest);
        let (a, b) = choose|a: Seq<char>, b: Seq<char>|
            #![trigger all_white(a), all_white(b)]
            all_white(a) && all_white(b) && rest == a + trimmed(rest) + b;
        let back = b.push(s.last());
        assert(all_white(back)) by {
            assert forall|i: int| 0 <= i < back.len() implies is_white(#[trigger] back[i]) by {
                if i < b.len() {
                    assert(back[i] == b[i]);
                }
            }
        }
        assert(trimmed(s) == trimmed(rest));
        assert(s =~= rest.push(s.last()));
        assert((a + trimmed(rest) + b).push(s.last()) =~= a + trimmed(rest) + back);
        if all_white(s) {
            assert(is_white(s[0]));
        }
        if all_white(rest) {
            assert(rest.len() > 0 ==> is_white(rest[0]));
            assert(rest.len() > 0 ==> rest[0] == s[0]);
            assert(rest.len() == 0 ==> s[0] == s.last());
        }
    } else {
        assert(all_white(none));
        assert(s =~= none + trimmed(s) + none);
        if s.len() > 0 {
            assert(!is_white(s[0]));
        }
    }
}

/// What is taken off the end of a text is every character of that kind there, and nothing else.
pub proof fn lemma_without_trailing(s: Seq<char>, c: char)
    ensures
        without_trailing(s, c).is_prefix_of(s),
        without_trailing(s, c).len() > 0 ==> without_trailing(s, c).last() != c,
        forall|i: int| without_trailing(s, c).len() <= i < s.len() ==> s[i] == c,
    decreases s.len(),
{
    if s.len() > 0 && s.last() == c {
        lemma_without_trailing(s.drop_last(), c);
        let kept = without_trailing(s, c);
        assert(s.take(kept.len() as int) =~= s.drop_last().take(kept.len() as int));
        assert forall|i: int| kept.len() <= i < s.len() implies s[i] == c by {
            if i < s.len() - 1 {
                assert(s[i] == s.drop_last()[i]);
            }
        }
    } else {
        assert(s.take(s.len() as int) =~= s);
    }
}

/// The pieces of a text, put together again with what was between them, are the text; no piece
/// holds the character between them, and there is one more piece than there are such characters.
pub proof fn lemma_pieces_are_the_text(s: Seq<char>, c: char)
    ensures
        joined(pieces(s, c), seq![c]) == s,
        pieces(s, c).len() == count_of(s, c) + 1,
        forall|i: int| 0 <= i < pieces(s, c).len() ==> !(#[trigger] pieces(s, c)[i]).contains(c),
    decreases s.len(),
{
    let all = pieces(s, c);
    if s.len() == 0 {
        assert(all[0] =~= s);
    } else {
        let front = s.drop_last();
        lemma_pieces_are_the_text(front, c);
        let before = pieces(front, c);
        if s.last() == c {
            assert(all.drop_last() =~= before);
            assert(joined(all, seq![c]) =~= front.push(c));
            assert(front.push(c) =~= s);
        } else {
            let piece = before.last().push(s.last());
            assert(all.last() == piece);
            assert(all.drop_last() =~= before.drop_last());
            if before.len() == 1 {
                assert(joined(all, seq![c]) =~= front.push(s.last()));
            } else {
                assert(joined(all, seq![c]) =~= joined(before, seq![c]).push(s.last()));
            }
            assert(front.push(s.last()) =~= s);
            assert forall|i: int| 0 <= i < all.len() implies !(#[trigger] all[i]).contains(c) by {
                if i < all.len() - 1 {
                    assert(all[i] == before[i]);
                } else {
                    assert(!before[before.len() - 1].contains(c));
                    if piece.contains(c) {
                        let k = choose|k: int| 0 <= k < piece.len() && piece[k] == c;
                        assert(before.last()[k] == c);
                    }
                }
            }
        }
    }
}

/// Counts of parts add up.
pub proof fn lemma_counts_add_up(a: Seq<char>, b: Seq<char>, c: char)
    ensures
        count_of(a + b, c) == count_of(a, c) + count_of(b, c),
        count_of(seq![c], c) == 1,
        count_of(a, c) == 0 <==> !a.contains(c),
        byte_len(a + b) == byte_len(a) + byte_len(b),
    decreases b.len() + a.len(),
{
    assert(seq![c].drop_last() =~= Seq::<char>::empty());
    assert(count_of(Seq::<char>::empty(), c) == 0);
    if b.len() == 0 {
        assert(a + b =~= a);
        if a.len() > 0 {
            let front = a.drop_last();
            lemma_counts_add_up(front, b, c);
            assert(front + b =~= front);
            if a.contains(c) && a.last() != c {
                let k = choose|k: int| 0 <= k < a.len() && a[k] == c;
                assert(front[k] == c);
            }
            if front.contains(c) {
                let k = choose|k: int| 0 <= k < front.len() && front[k] == c;
                assert(a[k] == c);
            }
            if a.last() == c {
                assert(a[a.len() - 1] == c);
            }
        }
    } else {
        lemma_counts_add_up(a, b.drop_last(), c);
        assert((a + b).drop_last() =~= a + b.drop_last());
    }
}

/// A character takes from one to four bytes, and one of ASCII takes one.
pub proof fn lemma_bytes_of_characters(c: char, s: Seq<char>)
    ensures
        1 <= char_bytes(c) <= 4,
        (c as u32) < 0x80 <==> char_bytes(c) == 1,
        0x80 <= c as u32 && (c as u32) < 0x800 <==> char_bytes(c) == 2,
        0x800 <= c as u32 && (c as u32) < 0x1_0000 <==> char_bytes(c) == 3,
        s.len() <= byte_len(s) <= 4 * s.len(),
    decreases s.len(),
{
    if s.len() > 0 {
        lemma_bytes_of_characters(s.last(), s.drop_last());
    }
}

/// Replacing changes the places where the text stands, and nothing where it does not stand.
pub proof fn lemma_replacing(s: Seq<char>, p: Seq<char>, by: Seq<char>)
    requires
        p.len() > 0,
    ensures
        replaced(p + s, p, by) == by + replaced(s, p, by),
        !occurs(s, p) ==> replaced(s, p, by) == s,
        replaced(s, p, p) == s,
    decreases s.len(),
{
    let whole = p + s;
    assert(whole.subrange(0, p.len() as int) =~= p);
    assert(occurs_at(whole, p, 0));
    assert(whole.skip(p.len() as int) =~= s);
    if s.len() > 0 {
        let rest = s.drop_first();
        if occurs_at(s, p, 0) {
            lemma_replacing(s.skip(p.len() as int), p, p);
            assert(s.subrange(0, p.len() as int) + s.skip(p.len() as int) =~= s);
            assert(occurs(s, p));
        } else {
            lemma_replacing(rest, p, by);
            lemma_replacing(rest, p, p);
            if occurs(rest, p) {
                let at = choose|at: int| #[trigger] occurs_at(rest, p, at);
                assert(s.subrange(at + 1, at + 1 + p.len()) =~= rest.subrange(
                    at,
                    (at + p.len()) as int,
                ));
                assert(occurs_at(s, p, at + 1));
            }
            assert(seq![s[0]] + rest =~= s);
        }
    }
}

/// The number that digits stand for.
pub open spec fn number_of(digits: Seq<char>) -> int
    decreases digits.len(),
{
    if digits.len() == 0 {
        0
    } else {
        number_of(digits.drop_last()) * 10 + (digits.last() as u32 - 48)
    }
}

/// The decimal text of a number is made of digits, stands for the number, and has no zero in front
/// that it does not need; a negative number has a sign.
pub proof fn lemma_decimal_text(n: nat)
    ensures
        number_of(decimal(n)) == n,
        decimal(n).len() > 0,
        forall|i: int| 0 <= i < decimal(n).len() ==> '0' <= #[trigger] decimal(n)[i] <= '9',
        n > 0 ==> decimal(n)[0] != '0',
        signed_decimal(n as int) == decimal(n),
        n > 0 ==> signed_decimal(-(n as int)) == seq!['-'] + decimal(n),
    decreases n,
{
    reveal_strlit("-");
    assert("-"@ =~= seq!['-']);
    if n >= 10 {
        lemma_decimal_text(n / 10);
        let front = decimal(n / 10);
        assert(decimal(n).drop_last() =~= front);
        assert forall|i: int| 0 <= i < decimal(n).len() implies '0' <= #[trigger] decimal(n)[i]
            <= '9' by {
            if i < front.len() {
                assert(decimal(n)[i] == front[i]);
            }
        }
        assert(decimal(n)[0] == front[0]);
    } else {
        assert(decimal(n).drop_last() =~= Seq::<char>::empty());
        assert(number_of(Seq::<char>::empty()) == 0);
    }
}

/// Lowering changes capitals of ASCII to their small letters and nothing else.
pub proof fn lemma_lowering(s: Seq<char>, i: int)
    requires
        0 <= i < s.len(),
    ensures
        ascii_lowered(s).len() == s.len(),
        !('A' <= s[i] <= 'Z') ==> ascii_lowered(s)[i] == s[i],
        'A' <= s[i] <= 'Z' ==> 'a' <= ascii_lowered(s)[i] <= 'z' && ascii_lowered(s)[i] as u32
            == s[i] as u32 + 32,
        ascii_lower(ascii_lowered(s)[i]) == ascii_lowered(s)[i],
{
}

/// A text in a column is whole, at its end of the column, and the column is as wide as it should
/// be.
pub proof fn lemma_columns(s: Seq<char>, width: nat)
    ensures
        s.is_suffix_of(right_aligned(s, width)),
        s.is_prefix_of(left_aligned(s, width)),
        s.len() <= width ==> right_aligned(s, width).len() == width && left_aligned(s, width).len()
            == width,
        s.len() >= width ==> right_aligned(s, width) == s && left_aligned(s, width) == s,
{
    let r = right_aligned(s, width);
    let l = left_aligned(s, width);
    assert(r.subrange(r.len() - s.len(), r.len() as int) =~= s);
    assert(l.take(s.len() as int) =~= s);
}

/// A field of an object is what was put there last under its name, and putting one there changes
/// no other. What is no object has no fields.
pub proof fn lemma_fields(
    fields: Map<Seq<char>, Tree>,
    name: Seq<char>,
    value: Tree,
    other: Seq<char>,
    items: Seq<Tree>,
    t: Seq<char>,
    yes: bool,
)
    ensures
        field(Tree::Object(fields.insert(name, value)), name) == Some(value),
        other != name ==> field(Tree::Object(fields.insert(name, value)), other) == field(
            Tree::Object(fields),
            other,
        ),
        field(Tree::Object(Map::empty()), name) is None,
        field(Tree::Array(items), name) is None && field(Tree::Text(t), name) is None && field(
            Tree::Null,
            name,
        ) is None,
        text_field(Tree::Object(fields.insert(name, Tree::Text(t))), name) == Some(t),
        flag_field(Tree::Object(fields.insert(name, Tree::Bool(yes))), name) == Some(yes),
        items_field(Tree::Object(fields.insert(name, Tree::Array(items))), name) == Some(items),
        !(value is Text) ==> text_field(Tree::Object(fields.insert(name, value)), name) is None,
        !(value is Bool) ==> flag_field(Tree::Object(fields.insert(name, value)), name) is None,
        !(value is Array) ==> items_field(Tree::Object(fields.insert(name, value)), name) is None,
        inner_field(Tree::Object(fields.insert(name, value)), name, other) == field(value, other),
        inner_text(Tree::Object(fields.insert(name, value)), name, other) == text_field(
            value,
            other,
        ),
{
}

/// A whole number is read as it is where it fits, and nothing else is read as one.
pub proof fn lemma_whole_numbers(n: int, t: Seq<char>)
    ensures
        0 <= n <= u64::MAX ==> unsigned_of(Tree::Int(n)) == Some(n as u64),
        n < 0 || n > u64::MAX ==> unsigned_of(Tree::Int(n)) is None,
        i64::MIN <= n <= i64::MAX ==> signed_of(Tree::Int(n)) == Some(n as i64),
        unsigned_of(Tree::Text(t)) is None && unsigned_of(Tree::Float(t)) is None,
        signed_of(Tree::Text(t)) is None && signed_of(Tree::Float(t)) is None,
{
}

/// What is shown of a value has every field of it, in objects and lists at any depth; tokens and
/// keys are replaced by a mark wherever they stand, and everything else is shown as it is.
pub proof fn lemma_what_is_shown(
    value: Tree,
    fields: Map<Seq<char>, Tree>,
    items: Seq<Tree>,
    name: Seq<char>,
    i: int,
)
    ensures
        ({
            let shown = redacted(Tree::Object(fields));
            let secret = name == "token"@ || name == "apiKey"@ || name == "accessToken"@ || name
                == "refreshToken"@ || name == "productSessionToken"@;
            &&& field(shown, name) is Some <==> fields.contains_key(name)
            &&& fields.contains_key(name) && secret ==> text_field(shown, name) == Some(
                "[stored by Mahayana]"@,
            )
            &&& fields.contains_key(name) && !secret ==> field(shown, name) == Some(
                redacted(fields[name]),
            )
        }),
        redacted(Tree::Array(items)) matches Tree::Array(shown) && shown.len() == items.len() && (0
            <= i < items.len() ==> shown[i] == redacted(items[i])),
        !(value is Object) && !(value is Array) ==> redacted(value) == value,
{
}

/// An identifier is safe in a path exactly where it is made of at most eighty letters, digits,
/// underscores, hyphens and single dots, led by a letter or digit.
pub proof fn lemma_safe_identifiers(value: Seq<char>)
    requires
        forall|i: int|
            0 <= i < value.len() ==> (#[trigger] value[i] as u32) < 0x80,
    ensures
        is_safe_identifier(value) <==> {
            &&& 1 <= value.len() <= 80
            &&& is_alphanumeric(value[0])
            &&& !occurs(value, ".."@)
            &&& forall|i: int|
                0 <= i < value.len() ==> is_alphanumeric(#[trigger] value[i]) || value[i] == '_'
                    || value[i] == '-' || value[i] == '.'
        },
{
    lemma_ascii_bytes(value);
    if is_safe_identifier(value) {
        assert forall|i: int| 0 <= i < value.len() implies is_alphanumeric(#[trigger] value[i])
            || value[i] == '_' || value[i] == '-' || value[i] == '.' by {
            assert(is_identifier_char(value[i]));
        }
    } else if 1 <= value.len() <= 80 && is_alphanumeric(value[0]) && !occurs(value, ".."@) && (
    forall|i: int|
        0 <= i < value.len() ==> is_alphanumeric(#[trigger] value[i]) || value[i] == '_' || value[i]
            == '-' || value[i] == '.') {
        assert forall|i: int|
            0 <= i < value.len() implies is_identifier_char(
            #[trigger] value[i],
        ) by {
            assert(is_alphanumeric(value[i]) || value[i] == '_' || value[i] == '-' || value[i]
                == '.');
        }
    }
}

proof fn lemma_ascii_bytes(value: Seq<char>)
    requires
        forall|i: int| 0 <= i < value.len() ==> (#[trigger] value[i] as u32) < 0x80,
    ensures
        byte_len(value) == value.len(),
    decreases value.len(),
{
    if value.len() > 0 {
        let front = value.drop_last();
        assert forall|i: int| 0 <= i < front.len() implies (#[trigger] front[i] as u32) < 0x80 by {
            assert(front[i] == value[i]);
        }
        lemma_ascii_bytes(front);
        assert((value[value.len() - 1] as u32) < 0x80);
    }
}

/// An identifier is a text without the white space around it, or a number as it is written; nothing
/// else is one.
pub proof fn lemma_identifiers(request: Tree, name: Seq<char>, t: Seq<char>, n: int)
    ensures
        field(request, name) == Some(Tree::Text(t)) && !is_blank(t) ==> identifier_text(request, name)
            == Some(trimmed(t)),
        field(request, name) == Some(Tree::Text(t)) && is_blank(t) ==> identifier_text(request, name)
            is None,
        field(request, name) == Some(Tree::Int(n)) ==> identifier_text(request, name) == Some(
            signed_decimal(n),
        ),
        field(request, name) is None ==> identifier_text(request, name) is None,
        field(request, name) == Some(Tree::Null) ==> identifier_text(request, name) is None,
{
}

/// A reply that went well is its body. A refusal keeps its status and is told with the error that
/// its body names, or its message, or with the body; a reply that did not come is told as such.
pub proof fn lemma_replies_are_decoded(
    value: Json,
    status: u16,
    body: Option<String>,
    error: String,
    parsed: Tree,
    t: Seq<char>,
)
    ensures
        decoded(HttpReply::Success(Ok(value))) == Ok::<Tree, ProductFault>(value@),
        decoded(HttpReply::Success(Err(error))) == Err::<Tree, ProductFault>(
            ProductFault::Response(error@),
        ),
        decoded(HttpReply::Transport(error)) == Err::<Tree, ProductFault>(
            ProductFault::Transport(error@),
        ),
        decoded(HttpReply::Status { status, body }) matches Err(
            ProductFault::HttpStatus { status: told, message },
        ) && {
            &&& told == status
            &&& body is Some && json_parse(body->0@) == Ok::<Tree, Seq<char>>(
                parsed,
            ) && text_field(parsed, "error"@) == Some(t) ==> message == t
            &&& body is Some && json_parse(body->0@) == Ok::<Tree, Seq<char>>(
                parsed,
            ) && field(parsed, "error"@) is None && text_field(parsed, "message"@) == Some(t)
                ==> message == t
            &&& body is Some && json_parse(body->0@) is Err ==> message
                == body->0@
        },
{
}

/// What a failure of the product API says holds its reason.
pub proof fn lemma_product_failures_say_why(t: Seq<char>, status: u16)
    ensures
        t.is_suffix_of(product_fault_text(ProductFault::UnsupportedRequest(t))),
        t.is_suffix_of(product_fault_text(ProductFault::Configuration(t))),
        t.is_suffix_of(product_fault_text(ProductFault::Session(t))),
        t.is_suffix_of(product_fault_text(ProductFault::Transport(t))),
        t.is_suffix_of(product_fault_text(ProductFault::Response(t))),
        "unsupported product request: "@.is_prefix_of(
            product_fault_text(ProductFault::UnsupportedRequest(t)),
        ),
        "product API configuration failed: "@.is_prefix_of(
            product_fault_text(ProductFault::Configuration(t)),
        ),
        "Mahayana account session failed: "@.is_prefix_of(
            product_fault_text(ProductFault::Session(t)),
        ),
        "Mahayana product API transport failed: "@.is_prefix_of(
            product_fault_text(ProductFault::Transport(t)),
        ),
        "Mahayana product API response failed: "@.is_prefix_of(
            product_fault_text(ProductFault::Response(t)),
        ),
        product_fault_text(ProductFault::InvalidParameter(t)) == "request parameter "@ + t
            + " is invalid"@,
        (decimal(status as nat) + ": "@ + t).is_suffix_of(
            product_fault_text(ProductFault::HttpStatus { status, message: t }),
        ),
{
    lemma_suffix("unsupported product request: "@, t);
    lemma_suffix("product API configuration failed: "@, t);
    lemma_suffix("Mahayana account session failed: "@, t);
    lemma_suffix("Mahayana product API transport failed: "@, t);
    lemma_suffix("Mahayana product API response failed: "@, t);
    let tail = decimal(status as nat) + ": "@ + t;
    lemma_suffix("Mahayana product API returned HTTP "@, tail);
    assert("Mahayana product API returned HTTP "@ + tail =~= product_fault_text(
        ProductFault::HttpStatus { status, message: t },
    ));
}

proof fn lemma_suffix(front: Seq<char>, tail: Seq<char>)
    ensures
        tail.is_suffix_of(front + tail),
        front.is_prefix_of(front + tail),
{
    let whole = front + tail;
    assert(whole.subrange(0, front.len() as int) =~= front);
    assert(whole.subrange(whole.len() - tail.len(), whole.len() as int) =~= tail);
}

/// The data is where the environment says, or else below the home of the user, in the place that
/// the application shares on its system.
pub proof fn lemma_place_of_the_data(facts: HomeFacts, path: Seq<char>)
    ensures
        opt_view(facts.mahayana_home) == Some(path) && path.len() > 0 ==> home_parts(facts) == seq![
            path,
        ],
        (facts.mahayana_home is None || facts.mahayana_home->0@.len() == 0) && facts.platform
            == Platform::Other && opt_view(facts.home) == Some(path) ==> home_parts(facts) == seq![
            path,
            ".mahayana"@,
        ],
        (facts.mahayana_home is None || facts.mahayana_home->0@.len() == 0) && facts.platform
            == Platform::Windows && opt_view(facts.app_data) == Some(path) ==> home_parts(facts)
            == seq![path, "Fabushi"@, "Mahayana"@],
        (facts.mahayana_home is None || facts.mahayana_home->0@.len() == 0) && facts.platform
            == Platform::Macos && opt_view(facts.home) == Some(path) ==> home_parts(facts)[0] == path
            && home_parts(facts).last() == "mahayana"@ && home_parts(facts).contains(
            "group.com.ombhrum.fabushi.share"@,
        ),
{
    if facts.platform == Platform::Macos && opt_view(facts.home) == Some(path) && (
    facts.mahayana_home is None || facts.mahayana_home->0@.len() == 0) {
        assert(home_parts(facts)[3] == "group.com.ombhrum.fabushi.share"@);
    }
}

/// A file name is its stem, a dot and its extension, which holds no dot; one without an extension is
/// its own stem.
pub proof fn lemma_parts_of_a_file_name(name: Seq<char>)
    ensures
        extension(name) matches Some(end) ==> name == stem(name) + seq!['.'] + end && stem(name).len()
            > 0 && !end.contains('.'),
        extension(name) is None ==> stem(name) == name,
        extension(name) is None ==> forall|i: int| 0 < i < name.len() ==> name[i] != '.',
{
    if extension(name) is Some {
        let at = choose|at: int| extension_dot(name, at);
        assert(name =~= name.take(at) + seq!['.'] + name.skip(at + 1));
        let end = name.skip(at + 1);
        assert forall|i: int| 0 <= i < end.len() implies #[trigger] end[i] != '.' by {
            assert(end[i] == name[at + 1 + i]);
        }
    } else {
        assert forall|i: int| 0 < i < name.len() implies name[i] != '.' by {
            if name[i] == '.' {
                lemma_last_dot(name, i);
            }
        }
    }
}

proof fn lemma_last_dot(name: Seq<char>, i: int)
    requires
        0 < i < name.len(),
        name[i] == '.',
    ensures
        exists|at: int| extension_dot(name, at),
    decreases name.len() - i,
{
    if exists|j: int| i < j < name.len() && name[j] == '.' {
        let j = choose|j: int| i < j < name.len() && name[j] == '.';
        lemma_last_dot(name, j);
    } else {
        assert(extension_dot(name, i));
    }
}

} // verus!
