//! Names of plugins.

use crate::text::{
    alphanumeric, is_alphanumeric, lowercase, lowercase_of, no_capitals, text_result, to_chars, trim,
    trimmed,
};
use vstd::prelude::*;

verus! {

/// The lower-case form of a string.
pub open spec fn lowered(s: Seq<char>) -> Seq<char>
    decreases s.len(),
{
    if s.len() == 0 {
        Seq::empty()
    } else {
        lowered(s.drop_last()) + lowercase(s.last())
    }
}

fn lower_all(s: &str) -> (out: Vec<char>)
    ensures
        out@ == lowered(s@),
        no_capitals(out@),
{
    let chars = to_chars(s);
    let mut out: Vec<char> = Vec::new();
    let mut i: usize = 0;
    while i < chars.len()
        invariant
            chars@ == s@,
            i <= chars@.len(),
            out@ == lowered(s@.take(i as int)),
            no_capitals(out@),
        decreases chars@.len() - i,
    {
        let ghost before = out@;
        proof {
            assert(s@.take(i + 1).drop_last() =~= s@.take(i as int));
        }
        let mut lower = lowercase_of(chars[i]);
        let ghost added = lower@;
        out.append(&mut lower);
        proof {
            assert forall|j: int| 0 <= j < out@.len() implies !('A' <= #[trigger] out@[j]
                <= 'Z') by {
                if j < before.len() {
                    assert(out@[j] == before[j]);
                } else {
                    assert(out@[j] == added[j - before.len()]);
                }
            }
        }
        i = i + 1;
    }
    proof {
        assert(s@.take(s@.len() as int) =~= s@);
    }
    out
}

/// The letters and digits of a text, with a hyphen between those that something else stands
/// between.
pub open spec fn kebab(s: Seq<char>) -> Seq<char>
    decreases s.len(),
{
    if s.len() == 0 {
        Seq::empty()
    } else {
        let before = kebab(s.drop_last());
        if is_alphanumeric(s.last()) {
            if before.len() > 0 && ends_apart(s.drop_last()) {
                before.push('-').push(s.last())
            } else {
                before.push(s.last())
            }
        } else {
            before
        }
    }
}

/// The text ends with something other than a letter or digit.
pub open spec fn ends_apart(s: Seq<char>) -> bool {
    s.len() > 0 && !is_alphanumeric(s.last())
}

/// The message about a name that cannot be made into one.
pub open spec fn name_message() -> Seq<char> {
    "plugin name must normalize to 1-64 kebab-case characters starting with a letter"@
}

/// A name that is short enough and starts with a letter.
pub open spec fn is_acceptable(name: Seq<char>) -> bool {
    0 < name.len() <= 64 && 'a' <= name[0] <= 'z'
}

/// The name that a lower-case text gives.
pub open spec fn name_of(lower: Seq<char>) -> Result<Seq<char>, Seq<char>> {
    if is_acceptable(kebab(lower)) {
        Ok(kebab(lower))
    } else {
        Err(name_message())
    }
}

/// The name that a text gives.
pub open spec fn normalized(value: Seq<char>) -> Result<Seq<char>, Seq<char>> {
    name_of(lowered(trimmed(value)))
}

/// The name that a lower-case text gives.
pub fn kebab_name(lower: &Vec<char>) -> (out: Result<String, String>)
    ensures
        text_result(out) == name_of(lower@),
{
    let mut name: String = String::new();
    let mut length: usize = 0;
    let mut apart = false;
    let mut first: char = '-';
    let mut i: usize = 0;
    while i < lower.len()
        invariant
            i <= lower@.len(),
            name@ == kebab(lower@.take(i as int)),
            length == if name@.len() > 65 {
                65
            } else {
                name@.len()
            },
            apart == ends_apart(lower@.take(i as int)),
            name@.len() > 0 ==> first == name@[0],
        decreases lower@.len() - i,
    {
        proof {
            assert(lower@.take(i + 1).drop_last() =~= lower@.take(i as int));
        }
        let c: char = lower[i];
        if alphanumeric(c) {
            if apart && length > 0 {
                name.push('-');
                if length < 65 {
                    length = length + 1;
                }
            }
            if length == 0 {
                first = c;
            }
            name.push(c);
            if length < 65 {
                length = length + 1;
            }
            apart = false;
        } else {
            apart = true;
        }
        i = i + 1;
    }
    proof {
        assert(lower@.take(lower@.len() as int) =~= lower@);
    }
    if length == 0 || length > 64 || !('a' <= first && first <= 'z') {
        return Err(
            "plugin name must normalize to 1-64 kebab-case characters starting with a letter".to_owned(),
        );
    }
    Ok(name)
}

/// A character of a name.
pub open spec fn is_name_char(c: char) -> bool {
    'a' <= c <= 'z' || '0' <= c <= '9' || c == '-'
}

/// A name in its normal form: small letters, digits and single hyphens between them.
pub open spec fn is_kebab(name: Seq<char>) -> bool {
    &&& is_acceptable(name)
    &&& name.last() != '-'
    &&& is_kebab_start(name)
}

/// The start of a name in its normal form.
pub open spec fn is_kebab_start(name: Seq<char>) -> bool {
    &&& name.len() > 0 ==> name[0] != '-'
    &&& forall|i: int| 0 <= i < name.len() ==> is_name_char(#[trigger] name[i])
    &&& forall|i: int| #![trigger name[i]]
        0 <= i < name.len() - 1 ==> name[i] != '-' || name[i + 1] != '-'
}

proof fn lemma_kebab_of_start(name: Seq<char>)
    requires
        is_kebab_start(name),
    ensures
        name.len() > 0 && name.last() == '-' ==> kebab(name) == name.drop_last(),
        name.len() > 0 && name.last() != '-' ==> kebab(name) == name,
    decreases name.len(),
{
    if name.len() > 0 {
        let front = name.drop_last();
        assert forall|i: int| 0 <= i < front.len() implies is_name_char(#[trigger] front[i]) by {
            assert(front[i] == name[i]);
        }
        assert forall|i: int| #![trigger front[i]] 0 <= i < front.len() - 1 implies front[i] != '-'
            || front[i + 1] != '-' by {
            assert(front[i] == name[i]);
        }
        lemma_kebab_of_start(front);
        assert(is_name_char(name[name.len() - 1]));
        if front.len() > 0 {
            assert(is_name_char(front[front.len() - 1]));
            if front.last() == '-' {
                assert(name[front.len() - 1] == '-');
                assert(name.last() != '-');
                assert(front.drop_last().push('-') =~= front);
                assert(front.len() > 1);
            }
            assert(front.push(name.last()) =~= name);
        } else {
            assert(kebab(front) =~= Seq::<char>::empty());
            assert(Seq::<char>::empty().push(name.last()) =~= name);
        }
    }
}

proof fn lemma_lowered_name(name: Seq<char>)
    requires
        forall|i: int| 0 <= i < name.len() ==> is_name_char(#[trigger] name[i]),
    ensures
        lowered(name) == name,
    decreases name.len(),
{
    if name.len() > 0 {
        let front = name.drop_last();
        assert forall|i: int| 0 <= i < front.len() implies is_name_char(#[trigger] front[i]) by {
            assert(front[i] == name[i]);
        }
        lemma_lowered_name(front);
        assert(is_name_char(name[name.len() - 1]));
        assert(lowercase(name.last()) =~= seq![name.last()]);
        assert(front + seq![name.last()] =~= name);
    } else {
        assert(lowered(name) =~= name);
    }
}

/// A name in its normal form gives itself.
pub proof fn lemma_normal_form_is_kept(name: Seq<char>)
    requires
        is_kebab(name),
    ensures
        normalized(name) == Ok::<Seq<char>, Seq<char>>(name),
{
    assert(is_name_char(name[0]));
    assert(is_name_char(name[name.len() - 1]));
    assert(trimmed(name) == name);
    lemma_lowered_name(name);
    lemma_kebab_of_start(name);
}

proof fn lemma_kebab_form(s: Seq<char>)
    requires
        no_capitals(s),
    ensures
        is_kebab_start(kebab(s)),
        kebab(s).len() > 0 ==> kebab(s).last() != '-',
    decreases s.len(),
{
    if s.len() > 0 {
        let front = s.drop_last();
        assert forall|i: int| 0 <= i < front.len() implies !('A' <= #[trigger] front[i] <= 'Z') by {
            assert(front[i] == s[i]);
        }
        lemma_kebab_form(front);
        let before = kebab(front);
        let after = kebab(s);
        let c = s[s.len() - 1];
        if is_alphanumeric(c) {
            assert(is_name_char(c));
            assert forall|i: int| 0 <= i < after.len() implies is_name_char(#[trigger] after[i]) by {
                if i < before.len() {
                    assert(after[i] == before[i]);
                    assert(is_name_char(before[i]));
                }
            }
            assert forall|i: int| #![trigger after[i]] 0 <= i < after.len() - 1 implies after[i]
                != '-' || after[i + 1] != '-' by {
                if i < before.len() - 1 {
                    assert(after[i] == before[i]);
                    assert(after[i + 1] == before[i + 1]);
                } else if i == before.len() - 1 {
                    assert(after[i] == before.last());
                }
            }
            if before.len() > 0 {
                assert(after[0] == before[0]);
            }
        }
    }
}

/// The name that a text gives. It is in normal form, so making it into a name again changes
/// nothing.
pub fn normalized_name(value: &str) -> (out: Result<String, String>)
    ensures
        text_result(out) == normalized(value@),
        out matches Ok(name) ==> is_kebab(name@) && normalized(name@) == Ok::<
            Seq<char>,
            Seq<char>,
        >(name@),
{
    let lower = lower_all(trim(value).as_str());
    proof {
        lemma_kebab_form(lower@);
        if is_acceptable(kebab(lower@)) {
            lemma_normal_form_is_kept(kebab(lower@));
        }
    }
    kebab_name(&lower)
}

/// The first letter or digit of a text stands at `at`.
pub open spec fn starts_at(s: Seq<char>, at: int) -> bool {
    &&& 0 <= at < s.len()
    &&& is_alphanumeric(s[at])
    &&& forall|i: int| 0 <= i < at ==> !is_alphanumeric(#[trigger] s[i])
}

proof fn lemma_kebab_of_apart(s: Seq<char>)
    requires
        forall|i: int| 0 <= i < s.len() ==> !is_alphanumeric(#[trigger] s[i]),
    ensures
        kebab(s).len() == 0,
    decreases s.len(),
{
    if s.len() > 0 {
        let front = s.drop_last();
        assert forall|i: int| 0 <= i < front.len() implies !is_alphanumeric(#[trigger] front[i]) by {
            assert(front[i] == s[i]);
        }
        lemma_kebab_of_apart(front);
        assert(!is_alphanumeric(s[s.len() - 1]));
    }
}

proof fn lemma_kebab_starts(s: Seq<char>, at: int)
    requires
        starts_at(s, at),
    ensures
        kebab(s).len() > 0,
        kebab(s)[0] == s[at],
    decreases s.len(),
{
    let front = s.drop_last();
    if at == s.len() - 1 {
        assert forall|i: int| 0 <= i < front.len() implies !is_alphanumeric(#[trigger] front[i]) by {
            assert(front[i] == s[i]);
        }
        lemma_kebab_of_apart(front);
    } else {
        assert forall|i: int| 0 <= i < at implies !is_alphanumeric(#[trigger] front[i]) by {
            assert(front[i] == s[i]);
        }
        assert(front[at] == s[at]);
        lemma_kebab_starts(front, at);
        assert(kebab(s)[0] == kebab(front)[0]);
    }
}

/// A text without a letter or digit of ASCII, once it is in lower case, gives no name.
pub proof fn lemma_nothing_to_name(value: Seq<char>)
    requires
        forall|i: int|
            0 <= i < lowered(trimmed(value)).len() ==> !is_alphanumeric(
                #[trigger] lowered(trimmed(value))[i],
            ),
    ensures
        normalized(value) == Err::<Seq<char>, Seq<char>>(name_message()),
{
    lemma_kebab_of_apart(lowered(trimmed(value)));
}

/// A text whose first letter or digit of ASCII, once it is in lower case, is a digit gives no
/// name.
pub proof fn lemma_no_name_starts_with_a_digit(value: Seq<char>, at: int)
    requires
        starts_at(lowered(trimmed(value)), at),
        '0' <= lowered(trimmed(value))[at] <= '9',
    ensures
        normalized(value) == Err::<Seq<char>, Seq<char>>(name_message()),
{
    lemma_kebab_starts(lowered(trimmed(value)), at);
}

} // verus!
