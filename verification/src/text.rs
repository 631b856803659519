//! Character-level operations on strings, stated over sequences of `char`.

use vstd::prelude::*;
use vstd::string::*;

verus! {

/// `String::push` appends one character.
pub assume_specification[ String::push ](text: &mut String, c: char)
    ensures
        final(text)@ == old(text)@.push(c),
;

/// The characters with the Unicode `White_Space` property.
pub open spec fn is_white(c: char) -> bool {
    let n = c as u32;
    ||| 0x9 <= n <= 0xd
    ||| n == 0x20
    ||| n == 0x85
    ||| n == 0xa0
    ||| n == 0x1680
    ||| 0x2000 <= n <= 0x200a
    ||| n == 0x2028
    ||| n == 0x2029
    ||| n == 0x202f
    ||| n == 0x205f
    ||| n == 0x3000
}

/// Tests for a character with the Unicode `White_Space` property.
pub fn white(c: char) -> (yes: bool)
    ensures
        yes == is_white(c),
{
    let n: u32 = c as u32;
    (0x9 <= n && n <= 0xd) || n == 0x20 || n == 0x85 || n == 0xa0 || n == 0x1680 || (0x2000 <= n
        && n <= 0x200a) || n == 0x2028 || n == 0x2029 || n == 0x202f || n == 0x205f || n == 0x3000
}

/// The characters of a string as a vector.
pub fn to_chars(s: &str) -> (out: Vec<char>)
    ensures
        out@ == s@,
{
    let mut out: Vec<char> = Vec::new();
    for c in it: s.chars()
        invariant
            it.seq() == s@,
            out@ == s@.take(it.index() as int),
    {
        out.push(c);
    }
    out
}

/// The string made of `chars[from..to]`.
pub fn from_chars(chars: &Vec<char>, from: usize, to: usize) -> (out: String)
    requires
        from <= to <= chars@.len(),
    ensures
        out@ == chars@.subrange(from as int, to as int),
{
    let mut out: String = String::new();
    let mut i: usize = from;
    while i < to
        invariant
            from <= i <= to <= chars@.len(),
            out@ == chars@.subrange(from as int, i as int),
        decreases to - i,
    {
        out.push(chars[i]);
        i = i + 1;
    }
    out
}

/// What is left of `s` once white space is removed from both ends.
pub open spec fn trimmed(s: Seq<char>) -> Seq<char>
    decreases s.len(),
{
    if s.len() > 0 && is_white(s.first()) {
        trimmed(s.drop_first())
    } else if s.len() > 0 && is_white(s.last()) {
        trimmed(s.drop_last())
    } else {
        s
    }
}

/// `s` holds nothing but white space.
pub open spec fn is_blank(s: Seq<char>) -> bool {
    trimmed(s).len() == 0
}

/// Trimming leaves nothing to trim.
pub proof fn lemma_trimmed_twice(s: Seq<char>)
    ensures
        trimmed(trimmed(s)) == trimmed(s),
    decreases s.len(),
{
    if s.len() > 0 && is_white(s.first()) {
        lemma_trimmed_twice(s.drop_first());
    } else if s.len() > 0 && is_white(s.last()) {
        lemma_trimmed_twice(s.drop_last());
    }
}

/// Removes white space from both ends.
pub fn trim(s: &str) -> (out: String)
    ensures
        out@ == trimmed(s@),
{
    let chars = to_chars(s);
    let mut from: usize = 0;
    let mut to: usize = chars.len();
    proof {
        assert(s@.subrange(0, s@.len() as int) =~= s@);
    }
    while from < to && white(chars[from])
        invariant
            chars@ == s@,
            from <= to == s@.len(),
            trimmed(s@) == trimmed(s@.subrange(from as int, to as int)),
        decreases to - from,
    {
        proof {
            let rest = s@.subrange(from as int, to as int);
            assert(rest.drop_first() =~= s@.subrange(from + 1, to as int));
        }
        from = from + 1;
    }
    while from < to && white(chars[to - 1])
        invariant
            chars@ == s@,
            from <= to <= s@.len(),
            from < to ==> !is_white(s@[from as int]),
            trimmed(s@) == trimmed(s@.subrange(from as int, to as int)),
        decreases to - from,
    {
        proof {
            let rest = s@.subrange(from as int, to as int);
            assert(rest.drop_last() =~= s@.subrange(from as int, to - 1));
        }
        to = to - 1;
    }
    from_chars(&chars, from, to)
}

/// Tests whether a string holds nothing but white space.
pub fn blank(s: &str) -> (yes: bool)
    ensures
        yes == is_blank(s@),
{
    trim(s).as_str().is_empty()
}

/// Tests two strings for the same characters.
pub fn same(a: &str, b: &str) -> (yes: bool)
    ensures
        yes == (a@ == b@),
{
    a.to_owned() == b.to_owned()
}

/// Tests whether `p` stands in `s` from position `at` on.
pub fn matches_at(s: &Vec<char>, p: &Vec<char>, at: usize) -> (yes: bool)
    requires
        at <= s@.len(),
    ensures
        yes == occurs_at(s@, p@, at as int),
{
    let length: usize = s.len();
    if p.len() > length - at {
        return false;
    }
    let mut i: usize = 0;
    while i < p.len()
        invariant
            length == s@.len(),
            at <= s@.len(),
            p@.len() <= s@.len() - at,
            i <= p@.len(),
            forall|j: int| 0 <= j < i ==> #[trigger] p@[j] == s@[at + j],
        decreases p@.len() - i,
    {
        if s[at + i] != p[i] {
            proof {
                assert(s@.subrange(at as int, at + p@.len())[i as int] == s@[at + i]);
            }
            return false;
        }
        i = i + 1;
    }
    proof {
        assert(s@.subrange(at as int, at + p@.len()) =~= p@);
    }
    true
}

/// `p` stands in `s` from position `at` on.
pub open spec fn occurs_at(s: Seq<char>, p: Seq<char>, at: int) -> bool {
    0 <= at && at + p.len() <= s.len() && s.subrange(at, (at + p.len()) as int) == p
}

/// Tests for a prefix.
pub fn starts_with(s: &str, p: &str) -> (yes: bool)
    ensures
        yes == p@.is_prefix_of(s@),
{
    matches_at(&to_chars(s), &to_chars(p), 0)
}

/// Tests for a suffix.
pub fn ends_with(s: &str, p: &str) -> (yes: bool)
    ensures
        yes == p@.is_suffix_of(s@),
{
    let s = to_chars(s);
    let p = to_chars(p);
    if p.len() > s.len() {
        return false;
    }
    matches_at(&s, &p, s.len() - p.len())
}

/// Tests whether a character occurs.
pub fn has_char(s: &str, c: char) -> (yes: bool)
    ensures
        yes == s@.contains(c),
{
    let chars = to_chars(s);
    let mut i: usize = 0;
    while i < chars.len()
        invariant
            chars@ == s@,
            i <= chars@.len(),
            forall|j: int| 0 <= j < i ==> s@[j] != c,
        decreases chars@.len() - i,
    {
        if chars[i] == c {
            return true;
        }
        i = i + 1;
    }
    false
}

/// `p` stands somewhere in `s`.
pub open spec fn occurs(s: Seq<char>, p: Seq<char>) -> bool {
    exists|at: int| #[trigger] occurs_at(s, p, at)
}

/// `at` is the first position from `from` on where `p` stands in `s`.
pub open spec fn first_occurrence(s: Seq<char>, p: Seq<char>, from: int, at: int) -> bool {
    &&& from <= at
    &&& occurs_at(s, p, at)
    &&& forall|j: int| from <= j < at ==> !occurs_at(s, p, j)
}

/// Finds the first position from `from` on where `p` stands in `s`.
pub fn find_from(s: &Vec<char>, p: &Vec<char>, from: usize) -> (at: Option<usize>)
    requires
        from <= s@.len(),
    ensures
        match at {
            Some(at) => first_occurrence(s@, p@, from as int, at as int),
            None => forall|j: int| from <= j ==> !occurs_at(s@, p@, j),
        },
{
    let mut i: usize = from;
    while i <= s.len() && p.len() <= s.len() - i
        invariant
            from <= i <= s@.len() + 1,
            forall|j: int| from <= j < i ==> !occurs_at(s@, p@, j),
        decreases s@.len() + 1 - i,
    {
        if matches_at(s, p, i) {
            return Some(i);
        }
        if i == s.len() {
            return None;
        }
        i = i + 1;
    }
    None
}

/// Tests whether `p` stands somewhere in `s`.
pub fn has_text(s: &str, p: &str) -> (yes: bool)
    ensures
        yes == occurs(s@, p@),
{
    find_from(&to_chars(s), &to_chars(p), 0).is_some()
}

/// How often `c` occurs in `s`.
pub open spec fn count_of(s: Seq<char>, c: char) -> nat
    decreases s.len(),
{
    if s.len() == 0 {
        0
    } else {
        count_of(s.drop_last(), c) + if s.last() == c {
            1nat
        } else {
            0
        }
    }
}

/// Counts the occurrences of a character.
pub fn count_char(s: &str, c: char) -> (n: usize)
    ensures
        n == count_of(s@, c),
{
    let chars = to_chars(s);
    let mut i: usize = 0;
    let mut n: usize = 0;
    while i < chars.len()
        invariant
            chars@ == s@,
            n <= i <= chars@.len(),
            n == count_of(s@.take(i as int), c),
        decreases chars@.len() - i,
    {
        proof {
            assert(s@.take(i + 1).drop_last() =~= s@.take(i as int));
        }
        if chars[i] == c {
            n = n + 1;
        }
        i = i + 1;
    }
    proof {
        assert(s@.take(s@.len() as int) =~= s@);
    }
    n
}

/// `s` without the copies of `c` at its end.
pub open spec fn without_trailing(s: Seq<char>, c: char) -> Seq<char>
    decreases s.len(),
{
    if s.len() > 0 && s.last() == c {
        without_trailing(s.drop_last(), c)
    } else {
        s
    }
}

/// Removes the copies of a character at the end.
pub fn trim_end_char(s: &str, c: char) -> (out: String)
    ensures
        out@ == without_trailing(s@, c),
{
    let chars = to_chars(s);
    let mut to: usize = chars.len();
    proof {
        assert(s@.take(s@.len() as int) =~= s@);
    }
    while to > 0 && chars[to - 1] == c
        invariant
            chars@ == s@,
            to <= chars@.len(),
            without_trailing(s@, c) == without_trailing(s@.take(to as int), c),
        decreases to,
    {
        proof {
            assert(s@.take(to as int).drop_last() =~= s@.take(to - 1));
        }
        to = to - 1;
    }
    from_chars(&chars, 0, to)
}

/// The parts of `s` between the occurrences of `c`.
pub open spec fn pieces(s: Seq<char>, c: char) -> Seq<Seq<char>>
    decreases s.len(),
{
    if s.len() == 0 {
        seq![Seq::empty()]
    } else {
        let before = pieces(s.drop_last(), c);
        if s.last() == c {
            before.push(Seq::empty())
        } else {
            before.drop_last().push(before.last().push(s.last()))
        }
    }
}

/// The characters of a result of strings.
pub open spec fn text_result(result: Result<String, String>) -> Result<Seq<char>, Seq<char>> {
    match result {
        Ok(text) => Ok(text@),
        Err(message) => Err(message@),
    }
}

/// The character sequences of a sequence of strings.
pub open spec fn texts(strings: Seq<String>) -> Seq<Seq<char>> {
    Seq::new(strings.len(), |i: int| strings[i]@)
}

/// Splits a string at every occurrence of a character.
pub fn split(s: &str, c: char) -> (out: Vec<String>)
    ensures
        texts(out@) == pieces(s@, c),
{
    let chars = to_chars(s);
    let mut out: Vec<String> = Vec::new();
    let mut current: String = String::new();
    let mut i: usize = 0;
    while i < chars.len()
        invariant
            chars@ == s@,
            i <= chars@.len(),
            texts(out@).push(current@) =~= pieces(s@.take(i as int), c),
        decreases chars@.len() - i,
    {
        proof {
            assert(s@.take(i + 1).drop_last() =~= s@.take(i as int));
            assert(texts(out@).push(current@).drop_last() =~= texts(out@));
        }
        if chars[i] == c {
            let ghost before = out@;
            out.push(current);
            proof {
                assert(texts(out@) =~= texts(before).push(current@));
            }
            current = String::new();
        } else {
            current.push(chars[i]);
        }
        i = i + 1;
    }
    proof {
        assert(s@.take(s@.len() as int) =~= s@);
    }
    let ghost before = out@;
    out.push(current);
    proof {
        assert(texts(out@) =~= texts(before).push(current@));
    }
    out
}

/// The strings of `parts` in order, with `sep` between each two.
pub open spec fn joined(parts: Seq<Seq<char>>, sep: Seq<char>) -> Seq<char>
    decreases parts.len(),
{
    if parts.len() == 0 {
        Seq::empty()
    } else if parts.len() == 1 {
        parts[0]
    } else {
        joined(parts.drop_last(), sep) + sep + parts.last()
    }
}

/// Joins strings with a separator.
pub fn join(parts: &Vec<String>, sep: &str) -> (out: String)
    ensures
        out@ == joined(texts(parts@), sep@),
{
    let mut out: String = String::new();
    let mut i: usize = 0;
    while i < parts.len()
        invariant
            i <= parts@.len(),
            out@ == joined(texts(parts@).take(i as int), sep@),
        decreases parts@.len() - i,
    {
        proof {
            assert(texts(parts@).take(i + 1).drop_last() =~= texts(parts@).take(i as int));
        }
        if i > 0 {
            out.append(sep);
        }
        let ghost before = out@;
        out.append(parts[i].as_str());
        proof {
            if i == 0 {
                assert(out@ =~= parts@[0]@);
            }
        }
        i = i + 1;
    }
    proof {
        assert(texts(parts@).take(parts@.len() as int) =~= texts(parts@));
    }
    out
}

/// `s` with every copy of `p` replaced by `by`, the copies taken from the left.
pub open spec fn replaced(s: Seq<char>, p: Seq<char>, by: Seq<char>) -> Seq<char>
    recommends
        p.len() > 0,
    decreases s.len(),
{
    if s.len() == 0 || p.len() == 0 {
        s
    } else if occurs_at(s, p, 0) {
        by + replaced(s.skip(p.len() as int), p, by)
    } else {
        seq![s[0]] + replaced(s.drop_first(), p, by)
    }
}

/// Replaces every copy of a non-empty text.
pub fn replace(s: &str, p: &str, by: &str) -> (out: String)
    requires
        p@.len() > 0,
    ensures
        out@ == replaced(s@, p@, by@),
{
    let chars = to_chars(s);
    let pattern = to_chars(p);
    let mut out: String = String::new();
    let mut i: usize = 0;
    proof {
        assert(s@.skip(0) =~= s@);
    }
    while i < chars.len()
        invariant
            chars@ == s@,
            pattern@ == p@,
            p@.len() > 0,
            i <= s@.len(),
            replaced(s@, p@, by@) =~= out@ + replaced(s@.skip(i as int), p@, by@),
        decreases s@.len() - i,
    {
        let ghost rest = s@.skip(i as int);
        proof {
            assert(occurs_at(rest, p@, 0) <==> occurs_at(s@, p@, i as int)) by {
                if i + p@.len() <= s@.len() {
                    assert(rest.subrange(0, p@.len() as int) =~= s@.subrange(
                        i as int,
                        i + p@.len(),
                    ));
                }
            }
            assert(rest.drop_first() =~= s@.skip(i + 1));
            if i + p@.len() <= s@.len() {
                assert(rest.skip(p@.len() as int) =~= s@.skip(i + p@.len()));
            }
        }
        if matches_at(&chars, &pattern, i) {
            out.append(by);
            i = i + pattern.len();
        } else {
            out.push(chars[i]);
            i = i + 1;
        }
    }
    proof {
        assert(s@.skip(s@.len() as int) =~= Seq::empty());
    }
    out
}

/// The character of a decimal digit.
pub open spec fn digit(d: nat) -> char {
    (48 + d) as char
}

/// The decimal notation of a natural number.
pub open spec fn decimal(n: nat) -> Seq<char>
    decreases n,
{
    if n < 10 {
        seq![digit(n)]
    } else {
        decimal(n / 10).push(digit(n % 10))
    }
}

/// The decimal notation of an integer.
pub open spec fn signed_decimal(n: int) -> Seq<char> {
    if n < 0 {
        "-"@ + decimal((-n) as nat)
    } else {
        decimal(n as nat)
    }
}

/// Writes a natural number in decimal notation.
pub fn decimal_text(n: u64) -> (out: String)
    ensures
        out@ == decimal(n as nat),
    decreases n,
{
    let mut out: String = if n < 10 {
        String::new()
    } else {
        decimal_text(n / 10)
    };
    let last: u8 = 48 + (n % 10) as u8;
    out.push(last as char);
    out
}

/// Writes an integer in decimal notation.
pub fn signed_decimal_text(n: i64) -> (out: String)
    ensures
        out@ == signed_decimal(n as int),
{
    if n < 0 {
        let size: i128 = -(n as i128);
        "-".to_owned().concat(decimal_text(size as u64).as_str())
    } else {
        decimal_text(n as u64)
    }
}

/// The lower-case form of an ASCII capital, any other character itself.
pub open spec fn ascii_lower(c: char) -> char {
    if 'A' <= c <= 'Z' {
        (c as u32 + 32) as char
    } else {
        c
    }
}

/// `s` with its ASCII capitals in lower case.
pub open spec fn ascii_lowered(s: Seq<char>) -> Seq<char> {
    s.map_values(|c: char| ascii_lower(c))
}

/// Puts an ASCII capital in lower case.
pub fn lower_char(c: char) -> (out: char)
    ensures
        out == ascii_lower(c),
{
    if 'A' <= c && c <= 'Z' {
        ((c as u8) + 32) as char
    } else {
        c
    }
}

/// Puts the ASCII capitals in lower case.
pub fn lower(s: &str) -> (out: String)
    ensures
        out@ == ascii_lowered(s@),
{
    let chars = to_chars(s);
    let mut out: String = String::new();
    let mut i: usize = 0;
    while i < chars.len()
        invariant
            chars@ == s@,
            i <= chars@.len(),
            out@ =~= ascii_lowered(s@.take(i as int)),
        decreases chars@.len() - i,
    {
        out.push(lower_char(chars[i]));
        i = i + 1;
    }
    proof {
        assert(s@.take(s@.len() as int) =~= s@);
    }
    out
}

/// `n` blanks.
pub open spec fn blanks(n: nat) -> Seq<char> {
    Seq::new(n, |i: int| ' ')
}

/// `s` moved to the right end of a column of `width` characters.
pub open spec fn right_aligned(s: Seq<char>, width: nat) -> Seq<char> {
    if s.len() < width {
        blanks((width - s.len()) as nat) + s
    } else {
        s
    }
}

/// `s` at the left end of a column of `width` characters.
pub open spec fn left_aligned(s: Seq<char>, width: nat) -> Seq<char> {
    if s.len() < width {
        s + blanks((width - s.len()) as nat)
    } else {
        s
    }
}

fn blank_text(n: usize) -> (out: String)
    ensures
        out@ == blanks(n as nat),
{
    let mut out: String = String::new();
    let mut i: usize = 0;
    while i < n
        invariant
            i <= n,
            out@ =~= blanks(i as nat),
        decreases n - i,
    {
        out.push(' ');
        i = i + 1;
    }
    out
}

/// Moves a text to the right end of a column.
pub fn align_right(s: &str, width: usize) -> (out: String)
    ensures
        out@ == right_aligned(s@, width as nat),
{
    let length: usize = to_chars(s).len();
    if length < width {
        blank_text(width - length).concat(s)
    } else {
        s.to_owned()
    }
}

/// Puts a text at the left end of a column.
pub fn align_left(s: &str, width: usize) -> (out: String)
    ensures
        out@ == left_aligned(s@, width as nat),
{
    let length: usize = to_chars(s).len();
    if length < width {
        s.to_owned().concat(blank_text(width - length).as_str())
    } else {
        s.to_owned()
    }
}

/// What `char::to_lowercase` yields for a character outside ASCII.
pub uninterp spec fn unicode_lowercase(c: char) -> Seq<char>;

/// The lower-case form of a character.
pub open spec fn lowercase(c: char) -> Seq<char> {
    if (c as u32) < 128 {
        seq![ascii_lower(c)]
    } else {
        unicode_lowercase(c)
    }
}

/// No capital letter of ASCII occurs.
pub open spec fn no_capitals(s: Seq<char>) -> bool {
    forall|i: int| 0 <= i < s.len() ==> !('A' <= #[trigger] s[i] <= 'Z')
}

/// `char::to_lowercase`, its characters collected. An ASCII character is mapped to the one
/// character that its ASCII lower-case form is; for the others the mapping of the Unicode
/// tables is named and not written out. No character is mapped to a capital letter of ASCII:
/// in the tables each of those has a lower-case mapping of its own, and none is the lower-case
/// mapping of anything.
#[verifier::external_body]
pub(crate) fn lowercase_of(c: char) -> (out: Vec<char>)
    ensures
        (c as u32) < 128 ==> out@ == seq![ascii_lower(c)],
        (c as u32) >= 128 ==> out@ == unicode_lowercase(c),
        no_capitals(out@),
{
    c.to_lowercase().collect()
}

/// The ASCII letters and digits.
pub open spec fn is_alphanumeric(c: char) -> bool {
    'a' <= c <= 'z' || 'A' <= c <= 'Z' || '0' <= c <= '9'
}

/// Tests for an ASCII letter or digit.
pub fn alphanumeric(c: char) -> (yes: bool)
    ensures
        yes == is_alphanumeric(c),
{
    ('a' <= c && c <= 'z') || ('A' <= c && c <= 'Z') || ('0' <= c && c <= '9')
}

/// The number of bytes of a character in UTF-8.
pub open spec fn char_bytes(c: char) -> nat {
    let n = c as u32;
    if n < 0x80 {
        1
    } else if n < 0x800 {
        2
    } else if n < 0x1_0000 {
        3
    } else {
        4
    }
}

/// The number of bytes of a string in UTF-8.
pub open spec fn byte_len(s: Seq<char>) -> nat
    decreases s.len(),
{
    if s.len() == 0 {
        0
    } else {
        byte_len(s.drop_last()) + char_bytes(s.last())
    }
}

proof fn lemma_byte_len_grows(s: Seq<char>, i: int)
    requires
        0 <= i <= s.len(),
    ensures
        byte_len(s.take(i)) <= byte_len(s),
    decreases s.len(),
{
    if i < s.len() {
        lemma_byte_len_grows(s.drop_last(), i);
        assert(s.drop_last().take(i) =~= s.take(i));
    } else {
        assert(s.take(i) =~= s);
    }
}

/// Counts the bytes of a string in UTF-8, up to a limit.
pub fn bytes_within(s: &str, limit: u32) -> (out: Option<u32>)
    ensures
        match out {
            Some(n) => n == byte_len(s@) && n <= limit,
            None => byte_len(s@) > limit,
        },
{
    let chars = to_chars(s);
    let mut total: u32 = 0;
    let mut i: usize = 0;
    while i < chars.len()
        invariant
            chars@ == s@,
            i <= chars@.len(),
            total == byte_len(s@.take(i as int)),
            total <= limit,
        decreases chars@.len() - i,
    {
        let n: u32 = chars[i] as u32;
        let width: u32 = if n < 0x80 {
            1
        } else if n < 0x800 {
            2
        } else if n < 0x1_0000 {
            3
        } else {
            4
        };
        proof {
            assert(s@.take(i + 1).drop_last() =~= s@.take(i as int));
            assert(byte_len(s@.take(i + 1)) == total + width);
            lemma_byte_len_grows(s@, i + 1);
        }
        if limit - total < width {
            return None;
        }
        total = total + width;
        i = i + 1;
    }
    proof {
        assert(s@.take(s@.len() as int) =~= s@);
    }
    Some(total)
}

} // verus!
