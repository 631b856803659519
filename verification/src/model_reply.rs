//! Requests to a Responses endpoint and the text in its replies.

use crate::json::{field, items_field, text_field, trees, Json, Object, Tree};
use crate::text::{ends_with, trim_end_char, without_trailing};
use vstd::prelude::*;
use vstd::string::*;

verus! {

/// The endpoint below a base address.
pub open spec fn endpoint_of(base: Seq<char>) -> Seq<char> {
    if "/responses"@.is_suffix_of(base) {
        base
    } else {
        without_trailing(base, '/') + "/responses"@
    }
}

/// The endpoint below a base address.
pub fn responses_endpoint(base: &str) -> (out: String)
    ensures
        out@ == endpoint_of(base@),
{
    if ends_with(base, "/responses") {
        base.to_owned()
    } else {
        trim_end_char(base, '/').concat("/responses")
    }
}

/// A message in the input of a model.
pub open spec fn input_message(role: Seq<char>, content: Seq<char>) -> Tree {
    Tree::Object(map!["role"@ => Tree::Text(role), "content"@ => Tree::Text(content)])
}

/// A message in the input of a model.
pub fn message_input(role: &str, content: &str) -> (out: Json)
    ensures
        out@ == input_message(role@, content@),
{
    Json::Object(Object::new().with_text("role", role).with_text("content", content))
}

/// The body of a request to the endpoint.
pub open spec fn inference_body(model: Seq<char>, input: Seq<Tree>) -> Tree {
    Tree::Object(
        map![
            "model"@ => Tree::Text(model),
            "input"@ => Tree::Array(input),
            "stream"@ => Tree::Bool(false),
        ],
    )
}

/// The body of a request to the endpoint.
pub fn responses_body(model: &str, input: Vec<Json>) -> (out: Json)
    ensures
        out@ == inference_body(model@, trees(input@)),
{
    Json::Object(
        Object::new().with_text("model", model).with("input", Json::Array(input)).with(
            "stream",
            Json::Bool(false),
        ),
    )
}

/// The texts of content items, one after the other.
pub open spec fn content_text(contents: Seq<Tree>) -> Seq<char>
    decreases contents.len(),
{
    if contents.len() == 0 {
        Seq::empty()
    } else {
        content_text(contents.drop_last()) + match text_field(contents.last(), "text"@) {
            Some(t) => t,
            None => Seq::empty(),
        }
    }
}

/// The texts of output items, one after the other.
pub open spec fn output_text(output: Seq<Tree>) -> Seq<char>
    decreases output.len(),
{
    if output.len() == 0 {
        Seq::empty()
    } else {
        output_text(output.drop_last()) + match items_field(output.last(), "content"@) {
            Some(contents) => content_text(contents),
            None => Seq::empty(),
        }
    }
}

/// The first item of an array, or the field of an object that is named zero.
pub open spec fn first_of(value: Tree) -> Option<Tree> {
    match value {
        Tree::Array(items) => if items.len() > 0 {
            Some(items[0])
        } else {
            None
        },
        _ => field(value, "0"@),
    }
}

/// The text of the first choice in a chat reply.
pub open spec fn choice_text(payload: Tree) -> Option<Seq<char>> {
    match field(payload, "choices"@) {
        Some(choices) => match first_of(choices) {
            Some(choice) => match field(choice, "message"@) {
                Some(message) => text_field(message, "content"@),
                None => None,
            },
            None => None,
        },
        None => None,
    }
}

/// A text that is not empty.
pub open spec fn some_text(value: Seq<char>) -> Option<Seq<char>> {
    if value.len() > 0 {
        Some(value)
    } else {
        None
    }
}

/// The text in a reply of a model: its output text where it has one, else what its output items
/// say, else what its first choice says.
pub open spec fn reply_text(payload: Tree) -> Option<Seq<char>> {
    match text_field(payload, "output_text"@) {
        Some(t) => some_text(t),
        None => {
            let said = match items_field(payload, "output"@) {
                Some(output) => output_text(output),
                None => Seq::empty(),
            };
            if said.len() > 0 {
                Some(said)
            } else {
                match choice_text(payload) {
                    Some(t) => some_text(t),
                    None => None,
                }
            }
        },
    }
}

fn non_empty(value: &str) -> (out: Option<String>)
    ensures
        match out {
            Some(t) => some_text(value@) == Some(t@),
            None => some_text(value@) is None,
        },
{
    if value.is_empty() {
        None
    } else {
        Some(value.to_owned())
    }
}

fn join_contents(contents: &Vec<Json>) -> (out: String)
    ensures
        out@ == content_text(trees(contents@)),
{
    let mut out: String = String::new();
    let mut i: usize = 0;
    while i < contents.len()
        invariant
            i <= contents@.len(),
            out@ == content_text(trees(contents@).take(i as int)),
        decreases contents@.len() - i,
    {
        proof {
            assert(trees(contents@).take(i + 1).drop_last() =~= trees(contents@).take(i as int));
        }
        match contents[i].text_field("text") {
            Some(t) => {
                out.append(t);
            },
            None => {
                proof {
                    assert(out@ + Seq::<char>::empty() =~= out@);
                }
            },
        }
        i = i + 1;
    }
    proof {
        assert(trees(contents@).take(contents@.len() as int) =~= trees(contents@));
    }
    out
}

fn join_output(output: &Vec<Json>) -> (out: String)
    ensures
        out@ == output_text(trees(output@)),
{
    let mut out: String = String::new();
    let mut i: usize = 0;
    while i < output.len()
        invariant
            i <= output@.len(),
            out@ == output_text(trees(output@).take(i as int)),
        decreases output@.len() - i,
    {
        proof {
            assert(trees(output@).take(i + 1).drop_last() =~= trees(output@).take(i as int));
        }
        match output[i].items_field("content") {
            Some(contents) => {
                out.append(join_contents(contents).as_str());
            },
            None => {
                proof {
                    assert(out@ + Seq::<char>::empty() =~= out@);
                }
            },
        }
        i = i + 1;
    }
    proof {
        assert(trees(output@).take(output@.len() as int) =~= trees(output@));
    }
    out
}

fn first_choice(payload: &Json) -> (out: Option<&str>)
    ensures
        match out {
            Some(t) => choice_text(payload@) == Some(t@),
            None => choice_text(payload@) is None,
        },
{
    match payload.get("choices") {
        Some(choices) => {
            let choice = match choices {
                Json::Array(items) => if items.len() > 0 {
                    Some(&items[0])
                } else {
                    None
                },
                _ => choices.get("0"),
            };
            match choice {
                Some(choice) => match choice.get("message") {
                    Some(message) => message.text_field("content"),
                    None => None,
                },
                None => None,
            }
        },
        None => None,
    }
}

/// The text in a reply of a model.
pub fn extract_output_text(payload: &Json) -> (out: Option<String>)
    ensures
        match out {
            Some(t) => reply_text(payload@) == Some(t@),
            None => reply_text(payload@) is None,
        },
{
    match payload.text_field("output_text") {
        Some(t) => {
            return non_empty(t);
        },
        None => {},
    }
    match payload.items_field("output") {
        Some(output) => {
            let said = join_output(output);
            if !said.as_str().is_empty() {
                return Some(said);
            }
        },
        None => {},
    }
    match first_choice(payload) {
        Some(t) => non_empty(t),
        None => None,
    }
}

/// No reply counts as empty text.
pub proof fn lemma_reply_says_something(payload: Tree)
    ensures
        reply_text(payload) matches Some(t) ==> t.len() > 0,
{
}

/// What items say together is what they say one part after the other.
pub proof fn lemma_texts_add_up(a: Seq<Tree>, b: Seq<Tree>)
    ensures
        content_text(a + b) == content_text(a) + content_text(b),
        output_text(a + b) == output_text(a) + output_text(b),
    decreases b.len(),
{
    if b.len() == 0 {
        assert(a + b =~= a);
        assert(content_text(a) + content_text(b) =~= content_text(a));
        assert(output_text(a) + output_text(b) =~= output_text(a));
    } else {
        lemma_texts_add_up(a, b.drop_last());
        assert((a + b).drop_last() =~= a + b.drop_last());
        assert(content_text(a + b) =~= content_text(a) + content_text(b));
        assert(output_text(a + b) =~= output_text(a) + output_text(b));
    }
}

/// One content item says its text, and one output item says what its content says; anything else
/// says nothing.
pub proof fn lemma_one_item_says(item: Tree)
    ensures
        text_field(item, "text"@) matches Some(t) ==> content_text(seq![item]) == t,
        text_field(item, "text"@) is None ==> content_text(seq![item]) == Seq::<char>::empty(),
        items_field(item, "content"@) matches Some(contents) ==> output_text(seq![item])
            == content_text(contents),
        items_field(item, "content"@) is None ==> output_text(seq![item]) == Seq::<char>::empty(),
{
    let none = Seq::<Tree>::empty();
    assert(seq![item].drop_last() =~= none);
    assert(content_text(none) == Seq::<char>::empty());
    assert(output_text(none) == Seq::<char>::empty());
    match text_field(item, "text"@) {
        Some(t) => {
            assert(content_text(seq![item]) =~= t);
        },
        None => {
            assert(content_text(seq![item]) =~= Seq::<char>::empty());
        },
    }
    match items_field(item, "content"@) {
        Some(contents) => {
            assert(output_text(seq![item]) =~= content_text(contents));
        },
        None => {
            assert(output_text(seq![item]) =~= Seq::<char>::empty());
        },
    }
}

/// Where `items` stands around the item at `i`.
proof fn lemma_around(items: Seq<Tree>, i: int)
    requires
        0 <= i < items.len(),
    ensures
        items == items.take(i) + seq![items[i]] + items.skip(i + 1),
{
    assert(items =~= items.take(i) + seq![items[i]] + items.skip(i + 1));
}

/// Every text in the content of every output item is part of the reply, wherever it stands, with
/// what the items before it say in front of it and what those behind it say after it.
pub proof fn lemma_every_text_is_said(
    payload: Tree,
    output: Seq<Tree>,
    i: int,
    contents: Seq<Tree>,
    j: int,
    t: Seq<char>,
)
    requires
        text_field(payload, "output_text"@) is None,
        items_field(payload, "output"@) == Some(output),
        0 <= i < output.len(),
        items_field(output[i], "content"@) == Some(contents),
        0 <= j < contents.len(),
        text_field(contents[j], "text"@) == Some(t),
        t.len() > 0,
    ensures
        reply_text(payload) == Some(
            output_text(output.take(i)) + content_text(contents.take(j)) + t + content_text(
                contents.skip(j + 1),
            ) + output_text(output.skip(i + 1)),
        ),
{
    lemma_around(output, i);
    lemma_around(contents, j);
    lemma_texts_add_up(output.take(i) + seq![output[i]], output.skip(i + 1));
    lemma_texts_add_up(output.take(i), seq![output[i]]);
    lemma_texts_add_up(contents.take(j) + seq![contents[j]], contents.skip(j + 1));
    lemma_texts_add_up(contents.take(j), seq![contents[j]]);
    lemma_one_item_says(output[i]);
    lemma_one_item_says(contents[j]);
    let said = output_text(output.take(i)) + content_text(contents.take(j)) + t + content_text(
        contents.skip(j + 1),
    ) + output_text(output.skip(i + 1));
    assert(output_text(output) =~= said);
    assert(said.len() > 0);
}

/// Texts of several messages are said in the order of the messages.
pub proof fn lemma_replies_follow_each_other(first: Tree, second: Tree, both: Tree)
    requires
        text_field(first, "output_text"@) is None,
        text_field(second, "output_text"@) is None,
        text_field(both, "output_text"@) is None,
        items_field(first, "output"@) matches Some(a) && output_text(a).len() > 0,
        items_field(second, "output"@) matches Some(b) && output_text(b).len() > 0,
        items_field(both, "output"@) == Some(
            items_field(first, "output"@)->0 + items_field(second, "output"@)->0,
        ),
    ensures
        reply_text(both) == Some(reply_text(first)->0 + reply_text(second)->0),
{
    lemma_texts_add_up(items_field(first, "output"@)->0, items_field(second, "output"@)->0);
}

/// An output text stands for the whole reply, whatever else the payload holds.
pub proof fn lemma_output_text_stands_alone(payload: Tree, t: Seq<char>)
    requires
        text_field(payload, "output_text"@) == Some(t),
    ensures
        t.len() > 0 ==> reply_text(payload) == Some(t),
        t.len() == 0 ==> reply_text(payload) is None,
{
}

/// A chat reply says what its first choice says, where no output says anything.
pub proof fn lemma_first_choice_is_said(payload: Tree, choices: Seq<Tree>, message: Tree, t: Seq<char>)
    requires
        text_field(payload, "output_text"@) is None,
        items_field(payload, "output"@) matches Some(output) ==> output_text(output).len() == 0,
        field(payload, "choices"@) == Some(Tree::Array(choices)),
        choices.len() > 0,
        field(choices[0], "message"@) == Some(message),
        text_field(message, "content"@) == Some(t),
        t.len() > 0,
    ensures
        reply_text(payload) == Some(t),
{
}

/// A payload without an output text, output items and choices says nothing.
pub proof fn lemma_nothing_is_said(payload: Tree)
    requires
        field(payload, "output_text"@) is None,
        field(payload, "output"@) is None,
        field(payload, "choices"@) is None,
    ensures
        reply_text(payload) is None,
{
}

proof fn lemma_without_trailing(base: Seq<char>)
    ensures
        without_trailing(base, '/').is_prefix_of(base),
        without_trailing(base.push('/'), '/') == without_trailing(base, '/'),
        base.len() > 0 && base.last() != '/' ==> without_trailing(base, '/') == base,
    decreases base.len(),
{
    assert(base.push('/').drop_last() =~= base);
    if base.len() > 0 && base.last() == '/' {
        lemma_without_trailing(base.drop_last());
        let kept = without_trailing(base, '/');
        assert(base.take(kept.len() as int) =~= base.drop_last().take(kept.len() as int));
    } else {
        assert(base.take(base.len() as int) =~= base);
    }
}

/// The endpoint is `/responses` below the base. It is the endpoint of itself, and a slash at the
/// end of the base makes no difference.
pub proof fn lemma_endpoint(base: Seq<char>)
    ensures
        "/responses"@.is_suffix_of(endpoint_of(base)),
        endpoint_of(endpoint_of(base)) == endpoint_of(base),
        "/responses"@.is_suffix_of(base) ==> endpoint_of(base) == base,
        base.len() > 0 && base.last() != '/' && !"/responses"@.is_suffix_of(base) ==> endpoint_of(
            base,
        ) == base + "/responses"@ && endpoint_of(base.push('/')) == endpoint_of(base),
{
    reveal_strlit("/responses");
    let tail = "/responses"@;
    lemma_without_trailing(base);
    if !tail.is_suffix_of(base) {
        let out = without_trailing(base, '/') + tail;
        assert(out.subrange(out.len() - tail.len(), out.len() as int) =~= tail);
        let longer = base.push('/');
        if tail.is_suffix_of(longer) {
            assert(longer.subrange(longer.len() - tail.len(), longer.len() as int)[9] == tail[9]);
            assert(tail[9] == 's');
            assert(false);
        }
    }
}

/// The body names the model and holds the whole input, each message with its role and content, and
/// asks for one reply rather than a stream.
pub proof fn lemma_inference_body(model: Seq<char>, input: Seq<Tree>, role: Seq<char>, content: Seq<char>)
    ensures
        text_field(inference_body(model, input), "model"@) == Some(model),
        items_field(inference_body(model, input), "input"@) == Some(input),
        field(inference_body(model, input), "stream"@) == Some(Tree::Bool(false)),
        text_field(input_message(role, content), "role"@) == Some(role),
        text_field(input_message(role, content), "content"@) == Some(content),
{
    reveal_strlit("model");
    reveal_strlit("input");
    reveal_strlit("stream");
    reveal_strlit("role");
    reveal_strlit("content");
    assert("model"@.len() == 5 && "input"@.len() == 5 && "stream"@.len() == 6 && "role"@.len() == 4
        && "content"@.len() == 7);
    assert("model"@[0] != "input"@[0]);
}

} // verus!
