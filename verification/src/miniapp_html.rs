//! The HTML of mini-apps: taking a document out of an answer, and inspecting it.

use crate::json::{trees, Json, Object, Tree};
use crate::text::{
    ascii_lower, ascii_lowered, find_from, first_occurrence, is_white, lower, matches_at, occurs,
    occurs_at, to_chars, white,
};
use vstd::prelude::*;
use vstd::string::*;

verus! {

/// `at` is where `p` stands for the last time.
pub open spec fn last_occurrence(s: Seq<char>, p: Seq<char>, at: int) -> bool {
    occurs_at(s, p, at) && forall|j: int| at < j ==> !occurs_at(s, p, j)
}

fn find_last(s: &Vec<char>, p: &Vec<char>) -> (out: Option<usize>)
    ensures
        match out {
            Some(at) => last_occurrence(s@, p@, at as int),
            None => !occurs(s@, p@),
        },
{
    let mut i: usize = s.len();
    if matches_at(s, p, i) {
        return Some(i);
    }
    while i > 0
        invariant
            i <= s@.len(),
            forall|j: int| i <= j ==> !occurs_at(s@, p@, j),
        decreases i,
    {
        i = i - 1;
        if matches_at(s, p, i) {
            return Some(i);
        }
    }
    None
}

/// Where the document in a text starts: at its document type, or else at its root element.
pub open spec fn document_start(lower: Seq<char>, at: int) -> bool {
    ||| first_occurrence(lower, "<!doctype html"@, 0, at)
    ||| !occurs(lower, "<!doctype html"@) && first_occurrence(lower, "<html"@, 0, at)
}

/// The document in a text: from its start to the end of its root element. Capitals make no
/// difference.
pub open spec fn is_document(source: Seq<char>, from: int, to: int) -> bool {
    let lower = ascii_lowered(source);
    &&& document_start(lower, from)
    &&& from + "</html>"@.len() <= to
    &&& last_occurrence(lower, "</html>"@, to - "</html>"@.len())
}

fn lower_chars(source: &str) -> (out: Vec<char>)
    ensures
        out@ == ascii_lowered(source@),
{
    to_chars(lower(source).as_str())
}

fn find_start(lower: &Vec<char>) -> (out: Option<usize>)
    ensures
        match out {
            Some(at) => document_start(lower@, at as int) && forall|k: int| #[trigger]
                document_start(lower@, k) ==> k == at,
            None => forall|k: int| !document_start(lower@, k),
        },
{
    let doctype = to_chars("<!doctype html");
    let root = to_chars("<html");
    match find_from(lower, &doctype, 0) {
        Some(at) => {
            proof {
                assert(occurs_at(lower@, doctype@, at as int));
                assert forall|k: int| #[trigger] document_start(lower@, k) implies k == at by {
                    assert(first_occurrence(lower@, doctype@, 0, k));
                    if k < at {
                        assert(!occurs_at(lower@, doctype@, k));
                    } else if at < k {
                        assert(!occurs_at(lower@, doctype@, at as int));
                    }
                }
            }
            Some(at)
        },
        None => {
            proof {
                assert forall|j: int| !occurs_at(lower@, doctype@, j) by {
                    if j >= 0 {
                        assert(!occurs_at(lower@, doctype@, j));
                    }
                }
            }
            match find_from(lower, &root, 0) {
                Some(at) => {
                    proof {
                        assert forall|k: int| #[trigger] document_start(
                            lower@,
                            k,
                        ) implies k == at by {
                            assert(first_occurrence(lower@, root@, 0, k));
                            if k < at {
                                assert(!occurs_at(lower@, root@, k));
                            } else if at < k {
                                assert(!occurs_at(lower@, root@, at as int));
                            }
                        }
                    }
                    Some(at)
                },
                None => None,
            }
        },
    }
}

/// Takes the document out of a text, if there is a complete one.
pub fn extract_html(source: &str) -> (out: Option<&str>)
    ensures
        match out {
            Some(html) => exists|from: int, to: int|
                #![trigger is_document(source@, from, to)]
                is_document(source@, from, to) && html@ == source@.subrange(from, to),
            None => forall|from: int, to: int| !is_document(source@, from, to),
        },
{
    let lower = lower_chars(source);
    let length: usize = lower.len();
    let end = to_chars("</html>");
    let from = match find_start(&lower) {
        Some(from) => from,
        None => {
            return None;
        },
    };
    let last = match find_last(&lower, &end) {
        Some(last) => last,
        None => {
            proof {
                assert forall|f: int, t: int| !is_document(source@, f, t) by {
                    if is_document(source@, f, t) {
                        assert(occurs_at(lower@, end@, t - end@.len()));
                    }
                }
            }
            return None;
        },
    };
    proof {
        assert forall|f: int, t: int| is_document(source@, f, t) implies f == from && t == last
            + end@.len() by {
            assert(document_start(lower@, f));
            let k = t - end@.len();
            if k < last {
                assert(!occurs_at(lower@, end@, last as int));
            } else if last < k {
                assert(!occurs_at(lower@, end@, k));
            }
        }
    }
    if last < from {
        return None;
    }
    let to: usize = last + end.len();
    proof {
        assert(is_document(source@, from as int, to as int));
    }
    Some(source.substring_char(from, to))
}

/// The position behind white space.
pub open spec fn past_white(s: Seq<char>, at: int) -> int
    decreases s.len() - at,
{
    if 0 <= at < s.len() && is_white(s[at]) {
        past_white(s, at + 1)
    } else {
        at
    }
}

fn skip_white(s: &Vec<char>, at: usize) -> (out: usize)
    requires
        at <= s@.len(),
    ensures
        out == past_white(s@, at as int),
        at <= out <= s@.len(),
{
    let mut i: usize = at;
    while i < s.len() && white(s[i])
        invariant
            at <= i <= s@.len(),
            past_white(s@, at as int) == past_white(s@, i as int),
        decreases s@.len() - i,
    {
        i = i + 1;
    }
    i
}

/// The character at a position is this one.
pub open spec fn is_at(s: Seq<char>, at: int, c: char) -> bool {
    0 <= at < s.len() && s[at] == c
}

/// Where the value of an attribute starts that has its name at `at`.
pub open spec fn value_start(s: Seq<char>, at: int, name: Seq<char>) -> Option<int> {
    let equals = past_white(s, at + name.len());
    if occurs_at(s, name, at) && is_at(s, equals, '=') {
        let start = past_white(s, equals + 1);
        Some(
            if is_at(s, start, '"') || is_at(s, start, '\'') {
                start + 1
            } else {
                start
            },
        )
    } else {
        None
    }
}

/// A source attribute at `at` that leads to another host.
pub open spec fn is_remote_source(s: Seq<char>, at: int) -> bool {
    match value_start(s, at, "src"@) {
        Some(start) => occurs_at(s, "http://"@, start) || occurs_at(s, "https://"@, start)
            || occurs_at(s, "//"@, start),
        None => false,
    }
}

fn remote_source(s: &Vec<char>, at: usize) -> (yes: bool)
    requires
        at <= s@.len(),
    ensures
        yes == is_remote_source(s@, at as int),
{
    let name = to_chars("src");
    let length: usize = s.len();
    if !matches_at(s, &name, at) {
        return false;
    }
    let equals = skip_white(s, at + name.len());
    if equals >= length || s[equals] != '=' {
        return false;
    }
    let start = skip_white(s, equals + 1);
    let start: usize = if start < length && (s[start] == '"' || s[start] == '\'') {
        start + 1
    } else {
        start
    };
    matches_at(s, &to_chars("http://"), start) || matches_at(s, &to_chars("https://"), start)
        || matches_at(s, &to_chars("//"), start)
}

/// A script tag starts at `tag` and has a source on another host at `at`, before the tag ends.
pub open spec fn is_remote_script(s: Seq<char>, tag: int, at: int) -> bool {
    &&& occurs_at(s, "<script"@, tag)
    &&& tag < at
    &&& is_remote_source(s, at)
    &&& forall|j: int| tag <= j < at ==> s[j] != '>'
}

/// The page loads a script from another host.
pub open spec fn loads_remote_script(html: Seq<char>) -> bool {
    exists|tag: int, at: int| is_remote_script(ascii_lowered(html), tag, at)
}

fn remote_in_tag(s: &Vec<char>, tag: usize) -> (yes: bool)
    requires
        tag < s@.len(),
        occurs_at(s@, "<script"@, tag as int),
    ensures
        yes == exists|at: int| is_remote_script(s@, tag as int, at),
{
    let mut i: usize = tag;
    while i < s.len() && s[i] != '>'
        invariant
            tag <= i <= s@.len(),
            occurs_at(s@, "<script"@, tag as int),
            forall|j: int| tag <= j < i ==> s@[j] != '>',
            forall|at: int| tag < at < i ==> !#[trigger] is_remote_script(s@, tag as int, at),
        decreases s@.len() - i,
    {
        if i > tag && remote_source(s, i) {
            proof {
                assert(is_remote_script(s@, tag as int, i as int));
            }
            return true;
        }
        i = i + 1;
    }
    proof {
        assert forall|at: int| !#[trigger] is_remote_script(s@, tag as int, at) by {
            if is_remote_script(s@, tag as int, at) {
                if at >= i {
                    if i < s@.len() {
                        if at > i {
                            assert(s@[i as int] == '>');
                        } else {
                            lemma_source_is_no_tag_end(s@, at);
                        }
                    } else {
                        lemma_source_is_no_tag_end(s@, at);
                    }
                }
            }
        }
    }
    false
}

proof fn lemma_source_is_no_tag_end(s: Seq<char>, at: int)
    requires
        is_remote_source(s, at),
    ensures
        0 <= at < s.len(),
        s[at] != '>',
{
    reveal_strlit("src");
    assert("src"@.len() == 3);
    assert(s.subrange(at, at + 3)[0] == "src"@[0]);
}

/// Tests whether a page loads a script from another host.
pub fn remote_script(html: &str) -> (yes: bool)
    ensures
        yes == loads_remote_script(html@),
{
    let s = lower_chars(html);
    let tag = to_chars("<script");
    let mut i: usize = 0;
    proof {
        reveal_strlit("<script");
        assert("<script"@.len() == 7);
    }
    while i < s.len()
        invariant
            s@ == ascii_lowered(html@),
            tag@ == "<script"@,
            tag@.len() == 7,
            i <= s@.len(),
            forall|k: int, at: int| 0 <= k < i ==> !#[trigger] is_remote_script(s@, k, at),
        decreases s@.len() - i,
    {
        if matches_at(&s, &tag, i) {
            if remote_in_tag(&s, i) {
                proof {
                    let at = choose|at: int| is_remote_script(s@, i as int, at);
                    assert(is_remote_script(ascii_lowered(html@), i as int, at));
                }
                return true;
            }
        }
        i = i + 1;
    }
    false
}

/// What is wrong with a page.
pub open spec fn page_errors(html: Seq<char>) -> Seq<Tree> {
    if loads_remote_script(html) {
        seq![Tree::Text("禁止加载外部脚本"@)]
    } else {
        Seq::empty()
    }
}

/// What inspecting a page tells.
pub open spec fn inspection(html: Seq<char>) -> Tree {
    Tree::Object(
        map![
            "passed"@ => Tree::Bool(page_errors(html).len() == 0),
            "errors"@ => Tree::Array(page_errors(html)),
        ],
    )
}

/// Inspects the page of a mini-app: it passes if nothing is wrong with it.
pub fn inspect_miniapp(html: &str) -> (out: Json)
    ensures
        out@ == inspection(html@),
{
    let remote = remote_script(html);
    let mut errors: Vec<Json> = Vec::new();
    if remote {
        errors.push(Json::text("禁止加载外部脚本"));
    }
    proof {
        assert(trees(errors@) =~= page_errors(html@));
    }
    Json::Object(
        Object::new().with("passed", Json::Bool(!remote)).with("errors", Json::Array(errors)),
    )
}

/// What is taken out of a text as a document starts with a tag and ends with the end of its root
/// element.
pub proof fn lemma_document_is_complete(source: Seq<char>, from: int, to: int)
    requires
        is_document(source, from, to),
    ensures
        "</html>"@.is_suffix_of(ascii_lowered(source.subrange(from, to))),
        source[from] == '<',
{
    let lower = ascii_lowered(source);
    let whole = ascii_lowered(source.subrange(from, to));
    let n = "</html>"@.len() as int;
    assert(whole =~= lower.subrange(from, to));
    assert(lower.subrange(to - n, to) == "</html>"@);
    assert(whole.subrange(whole.len() - n, whole.len() as int) =~= lower.subrange(to - n, to));
    reveal_strlit("<!doctype html");
    reveal_strlit("<html");
    if first_occurrence(lower, "<!doctype html"@, 0, from) {
        assert(lower.subrange(from, from + "<!doctype html"@.len())[0] == "<!doctype html"@[0]);
    } else {
        assert(lower.subrange(from, from + "<html"@.len())[0] == "<html"@[0]);
    }
    assert(lower[from] == '<');
    assert(ascii_lower(source[from]) == '<');
}

/// A text holds at most one document.
pub proof fn lemma_one_document(
    source: Seq<char>,
    from: int,
    to: int,
    other_from: int,
    other_to: int,
)
    requires
        is_document(source, from, to),
        is_document(source, other_from, other_to),
    ensures
        from == other_from,
        to == other_to,
{
    let lower = ascii_lowered(source);
    let n = "</html>"@.len() as int;
    if to < other_to {
        assert(!occurs_at(lower, "</html>"@, other_to - n));
    } else if other_to < to {
        assert(!occurs_at(lower, "</html>"@, to - n));
    }
    let mark = if first_occurrence(lower, "<!doctype html"@, 0, from) {
        "<!doctype html"@
    } else {
        "<html"@
    };
    assert(occurs_at(lower, mark, from));
    assert(first_occurrence(lower, mark, 0, other_from));
    if from < other_from {
        assert(!occurs_at(lower, mark, from));
    } else if other_from < from {
        assert(!occurs_at(lower, mark, other_from));
    }
}

} // verus!
