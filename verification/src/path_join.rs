//! Paths below a directory.

use crate::path::{
    behind_prefix, components, drive, has_root, inner_parts, is_drive, is_verbatim, lead,
    leads_down, lemma_piece_end, lemma_pieces_len, lemma_prefix_len, path_pieces, piece_end,
    piece_part, prefix_len, prefix_of, separator, take_apart, under, unified, unified_char, Part,
    PathStyle,
};
use crate::text::{from_chars, join, joined, pieces, same, starts_with, texts, to_chars};
use vstd::prelude::*;
use vstd::string::*;

verus! {

/// The text of a component behind the root.
pub open spec fn part_text(part: Part) -> Seq<char> {
    match part {
        Part::Prefix(text) => text,
        Part::Verbatim(text) => text,
        Part::Root => Seq::empty(),
        Part::Here => "."@,
        Part::Up => ".."@,
        Part::Name(text) => text,
    }
}

/// The texts of components behind the root.
pub open spec fn part_texts(parts: Seq<Part>) -> Seq<Seq<char>> {
    Seq::new(parts.len(), |i: int| part_text(parts[i]))
}

/// The texts of what a path names behind its prefix.
pub open spec fn inner_texts(style: PathStyle, path: Seq<char>) -> Seq<Seq<char>> {
    part_texts(inner_parts(path_pieces(style, path), is_verbatim(style, path)))
}

/// `relative` below a verbatim `root`, which is written out anew.
pub open spec fn joined_verbatim(root: Seq<char>, relative: Seq<char>) -> Seq<char> {
    let style = PathStyle::Windows;
    let prefix = root.take(prefix_len(style, root));
    let names = inner_texts(style, root) + inner_texts(style, relative);
    if has_root(style, root) || names.len() > 0 {
        prefix.push('\\') + joined(names, "\\"@)
    } else {
        prefix
    }
}

/// `relative` below `root`. By the rules of Posix a path that starts at the root takes the place
/// of `root`.
pub open spec fn joined_path(style: PathStyle, root: Seq<char>, relative: Seq<char>) -> Seq<char> {
    match style {
        PathStyle::Posix => if has_root(style, relative) || root.len() == 0 {
            relative
        } else if root.last() == '/' {
            root + relative
        } else {
            root.push('/') + relative
        },
        PathStyle::Windows => if root.len() == 0 {
            relative
        } else if is_verbatim(style, root) {
            joined_verbatim(root, relative)
        } else if unified_char(root.last()) == '\\' || (is_drive(root) && root.len() == 2) {
            root + relative
        } else {
            root.push('\\') + relative
        },
    }
}

fn kept_texts(parts: &Vec<String>, verbatim: bool) -> (out: Vec<String>)
    ensures
        texts(out@) == part_texts(inner_parts(texts(parts@), verbatim)),
{
    let mut out: Vec<String> = Vec::new();
    let mut i: usize = 0;
    proof {
        assert(part_texts(Seq::<Part>::empty()) =~= Seq::<Seq<char>>::empty());
    }
    while i < parts.len()
        invariant
            i <= parts@.len(),
            texts(out@) =~= part_texts(inner_parts(texts(parts@).take(i as int), verbatim)),
        decreases parts@.len() - i,
    {
        let ghost before = out@;
        proof {
            assert(texts(parts@).take(i + 1).drop_last() =~= texts(parts@).take(i as int));
        }
        if !parts[i].as_str().is_empty() && (verbatim || !same(parts[i].as_str(), ".")) {
            out.push(parts[i].clone());
            proof {
                assert(texts(out@) =~= texts(before).push(parts@[i as int]@));
            }
        }
        proof {
            let start = inner_parts(texts(parts@).take(i as int), verbatim);
            match piece_part(texts(parts@)[i as int], verbatim) {
                Some(part) => {
                    assert(part_text(part) == parts@[i as int]@);
                    assert(part_texts(start.push(part)) =~= part_texts(start).push(
                        part_text(part),
                    ));
                },
                None => {},
            }
        }
        i = i + 1;
    }
    proof {
        assert(texts(parts@).take(parts@.len() as int) =~= texts(parts@));
    }
    out
}

fn join_verbatim(root: &str, relative: &str) -> (out: String)
    requires
        is_verbatim(PathStyle::Windows, root@),
    ensures
        out@ == joined_verbatim(root@, relative@),
{
    let base = take_apart(PathStyle::Windows, root);
    let below = take_apart(PathStyle::Windows, relative);
    let mut names = kept_texts(&base.pieces, base.verbatim);
    let mut more = kept_texts(&below.pieces, below.verbatim);
    let ghost first = names@;
    let ghost second = more@;
    names.append(&mut more);
    let prefix = from_chars(&to_chars(root), 0, base.start);
    proof {
        assert(texts(names@) =~= texts(first) + texts(second));
        assert(prefix@ =~= root@.take(prefix_len(PathStyle::Windows, root@)));
        assert(texts(names@).len() == names@.len());
        reveal_strlit("\\");
        assert(prefix@ + "\\"@ =~= prefix@.push('\\'));
    }
    if base.rooted || names.len() > 0 {
        prefix.concat("\\").concat(join(&names, "\\").as_str())
    } else {
        prefix
    }
}

/// Joins a path to a directory.
pub fn join_path(style: PathStyle, root: &str, relative: &str) -> (out: String)
    requires
        style == PathStyle::Windows ==> relative@.len() > 0 && leads_down(style, relative@),
    ensures
        out@ == joined_path(style, root@, relative@),
{
    let r = to_chars(root);
    if r.len() == 0 {
        return relative.to_owned();
    }
    let last: char = r[r.len() - 1];
    match style {
        PathStyle::Posix => {
            let p = to_chars(relative);
            proof {
                assert(behind_prefix(style, relative@) =~= relative@);
                reveal_strlit("/");
                assert(root@ + "/"@ =~= root@.push('/'));
            }
            if p.len() > 0 && p[0] == '/' {
                relative.to_owned()
            } else if last == '/' {
                root.to_owned().concat(relative)
            } else {
                root.to_owned().concat("/").concat(relative)
            }
        },
        PathStyle::Windows => {
            proof {
                reveal_strlit("\\");
                assert(root@ + "\\"@ =~= root@.push('\\'));
                assert(r@.skip(0) =~= r@);
            }
            if starts_with(root, "\\\\?\\") {
                join_verbatim(root, relative)
            } else if last == '/' || last == '\\' || (r.len() == 2 && drive(&r, 0)) {
                root.to_owned().concat(relative)
            } else {
                root.to_owned().concat("\\").concat(relative)
            }
        },
    }
}

proof fn lemma_pieces_joined(a: Seq<char>, b: Seq<char>, c: char)
    ensures
        pieces(a.push(c) + b, c) == pieces(a, c) + pieces(b, c),
    decreases b.len(),
{
    lemma_pieces_len(a, c);
    lemma_pieces_len(b, c);
    if b.len() == 0 {
        assert(a.push(c) + b =~= a.push(c));
        assert(a.push(c).drop_last() =~= a);
        assert(pieces(a, c).push(Seq::empty()) =~= pieces(a, c) + pieces(b, c));
    } else {
        let front = b.drop_last();
        lemma_pieces_joined(a, front, c);
        lemma_pieces_len(front, c);
        let whole = a.push(c) + b;
        assert(whole.drop_last() =~= a.push(c) + front);
        let before = pieces(a, c) + pieces(front, c);
        assert(before.drop_last() =~= pieces(a, c) + pieces(front, c).drop_last());
        assert(before.last() == pieces(front, c).last());
        assert(pieces(whole, c) =~= pieces(a, c) + pieces(b, c));
    }
}

proof fn lemma_inner_joined(a: Seq<Seq<char>>, b: Seq<Seq<char>>, verbatim: bool)
    ensures
        inner_parts(a + b, verbatim) == inner_parts(a, verbatim) + inner_parts(b, verbatim),
    decreases b.len(),
{
    if b.len() == 0 {
        assert(a + b =~= a);
        assert(inner_parts(a, verbatim) + inner_parts(b, verbatim) =~= inner_parts(a, verbatim));
    } else {
        lemma_inner_joined(a, b.drop_last(), verbatim);
        assert((a + b).drop_last() =~= a + b.drop_last());
        assert(inner_parts(a + b, verbatim) =~= inner_parts(a, verbatim) + inner_parts(
            b,
            verbatim,
        ));
    }
}

proof fn lemma_inner_of_nothing(verbatim: bool)
    ensures
        inner_parts(seq![Seq::<char>::empty()], verbatim) == Seq::<Part>::empty(),
{
    let none = Seq::<char>::empty();
    assert(seq![none].drop_last() =~= Seq::<Seq<char>>::empty());
    assert(inner_parts(Seq::<Seq<char>>::empty(), verbatim) == Seq::<Part>::empty());
    assert(seq![none].last() == none);
}

pub(crate) proof fn lemma_leads_down(style: PathStyle, path: Seq<char>)
    requires
        leads_down(style, path),
    ensures
        prefix_len(style, path) == 0,
        !has_root(style, path),
        !is_verbatim(style, path),
        unified(style, path).len() == path.len(),
        behind_prefix(style, path) == unified(style, path),
        path.len() > 0 ==> unified(style, path)[0] != separator(style),
{
    lemma_prefix_len(style, path);
    let all = components(style, path);
    if prefix_len(style, path) > 0 {
        assert(all[0] == lead(style, path)[0]);
        assert(all[0] is Prefix || all[0] is Verbatim);
    }
    if has_root(style, path) {
        assert(all[0] == lead(style, path)[0]);
        assert(all[0] is Root);
    }
    if is_verbatim(style, path) {
        reveal_strlit("\\\\?\\");
        reveal_strlit("\\\\?\\UNC\\");
        let text = unified(style, path);
        lemma_piece_end(text, 4);
        lemma_piece_end(text, 8);
        lemma_piece_end(text, piece_end(text, 8) + 1);
    }
    assert(behind_prefix(style, path) =~= unified(style, path));
}

proof fn lemma_posix_joined(root: Seq<char>, relative: Seq<char>)
    requires
        root.len() > 0,
        !has_root(PathStyle::Posix, relative),
    ensures
        components(PathStyle::Posix, joined_path(PathStyle::Posix, root, relative)) == components(
            PathStyle::Posix,
            root,
        ) + inner_parts(path_pieces(PathStyle::Posix, relative), false),
{
    let style = PathStyle::Posix;
    let path = joined_path(style, root, relative);
    let r = pieces(relative, '/');
    assert(behind_prefix(style, path) =~= path);
    assert(behind_prefix(style, root) =~= root);
    assert(behind_prefix(style, relative) =~= relative);
    lemma_pieces_len(root, '/');
    lemma_pieces_len(relative, '/');
    if root.last() == '/' {
        let front = root.drop_last();
        assert(root =~= front.push('/'));
        lemma_pieces_joined(front, relative, '/');
        lemma_pieces_len(front, '/');
        lemma_inner_joined(pieces(front, '/'), r, false);
        assert(pieces(root, '/').drop_last() =~= pieces(front, '/'));
        assert(inner_parts(pieces(root, '/'), false) =~= inner_parts(pieces(front, '/'), false));
        assert(pieces(path, '/')[0] == pieces(front, '/')[0]);
        assert(pieces(root, '/')[0] == pieces(front, '/')[0]);
    } else {
        lemma_pieces_joined(root, relative, '/');
        lemma_inner_joined(pieces(root, '/'), r, false);
        assert(pieces(path, '/')[0] == pieces(root, '/')[0]);
    }
    assert(path[0] == root[0]);
    assert(lead(style, path) =~= lead(style, root));
    assert(components(style, path) =~= components(style, root) + inner_parts(r, false));
}

/// A directory whose prefix is complete, so that nothing that follows it is taken for a part of
/// the prefix. A verbatim one has a root directory.
pub open spec fn is_settled(style: PathStyle, root: Seq<char>) -> bool {
    let text = unified(style, root);
    let end = prefix_len(style, root);
    style == PathStyle::Windows && "\\\\"@.is_prefix_of(text) ==> {
        &&& end > 2 && text[end - 1] != '\\'
        &&& is_verbatim(style, root) ==> has_root(style, root)
        &&& is_verbatim(style, root) && "\\\\?\\UNC\\"@.is_prefix_of(text) ==> piece_end(text, 8)
            < end
    }
}

proof fn lemma_piece_end_kept(a: Seq<char>, b: Seq<char>, from: int)
    requires
        0 <= from <= a.len(),
        piece_end(a, from) < b.len(),
        b[piece_end(a, from)] == '\\',
        forall|i: int| from <= i < piece_end(a, from) ==> a[i] == b[i],
    ensures
        piece_end(b, from) == piece_end(a, from),
    decreases a.len() - from,
{
    lemma_piece_end(a, from);
    if from < a.len() && a[from] != '\\' {
        lemma_piece_end(a, from + 1);
        assert(a[from] == b[from]);
        lemma_piece_end_kept(a, b, from + 1);
    }
}

proof fn lemma_piece_end_stops(text: Seq<char>, from: int)
    requires
        0 <= from,
        piece_end(text, from) < text.len(),
    ensures
        from < text.len(),
        text[piece_end(text, from)] == '\\',
    decreases text.len() - from,
{
    if from < text.len() && text[from] != '\\' {
        lemma_piece_end_stops(text, from + 1);
    }
}

/// The texts of two joined paths, each with one kind of separator.
proof fn lemma_windows_text(root: Seq<char>, relative: Seq<char>)
    requires
        root.len() > 0,
        relative.len() > 0,
        leads_down(PathStyle::Windows, relative),
        is_settled(PathStyle::Windows, root),
        !is_verbatim(PathStyle::Windows, root),
    ensures
        ({
            let style = PathStyle::Windows;
            let path = joined_path(style, root, relative);
            let text = unified(style, root);
            let below = unified(style, relative);
            &&& !is_verbatim(style, path)
            &&& text.len() == root.len()
            &&& below.len() == relative.len() && below[0] != '\\'
            &&& if text.last() == '\\' || (is_drive(root) && root.len() == 2) {
                unified(style, path) == text + below
            } else {
                unified(style, path) == text.push('\\') + below
            }
        }),
{
    let style = PathStyle::Windows;
    let path = joined_path(style, root, relative);
    lemma_leads_down(style, relative);
    reveal_strlit("\\\\?\\");
    reveal_strlit("\\\\");
    let text = unified(style, root);
    if is_verbatim(style, path) {
        assert forall|i: int| 0 <= i < 4 implies path[i] == "\\\\?\\"@[i] by {
            assert(path.subrange(0, 4)[i] == "\\\\?\\"@[i]);
        }
        assert(path[0] == root[0]);
        if root.len() >= 2 {
            assert(path[1] == root[1]);
            assert(text.subrange(0, 2) =~= "\\\\"@);
            assert(prefix_len(style, root) > 2);
            lemma_prefix_len(style, root);
            if root.len() == 3 {
                reveal_strlit("\\\\.\\");
                lemma_piece_end(text, 2);
                lemma_piece_end(text, piece_end(text, 2) + 1);
                assert(path[2] == root[2]);
                assert(text[2] == '?');
                assert(piece_end(text, 3) == 3);
                assert(piece_end(text, 2) == 3);
                assert(false);
            } else {
                assert forall|i: int| 0 <= i < 4 implies root[i] == path[i] by {}
                assert(root.subrange(0, 4) =~= "\\\\?\\"@);
                assert(false);
            }
        } else {
            assert(root[0] == '\\');
            assert(path[1] == relative[0]);
            assert(false);
        }
    }
    if text.last() == '\\' || (is_drive(root) && root.len() == 2) {
        assert(unified(style, path) =~= text + unified(style, relative));
    } else {
        assert(unified(style, path) =~= text.push('\\') + unified(style, relative));
    }
}

proof fn lemma_windows_prefix(root: Seq<char>, relative: Seq<char>)
    requires
        root.len() > 0,
        relative.len() > 0,
        leads_down(PathStyle::Windows, relative),
        is_settled(PathStyle::Windows, root),
        !is_verbatim(PathStyle::Windows, root),
    ensures
        prefix_len(PathStyle::Windows, joined_path(PathStyle::Windows, root, relative))
            == prefix_len(PathStyle::Windows, root),
{
    let style = PathStyle::Windows;
    let path = joined_path(style, root, relative);
    let a = unified(style, root);
    let b = unified(style, path);
    let end = prefix_len(style, root);
    lemma_windows_text(root, relative);
    lemma_prefix_len(style, root);
    reveal_strlit("\\\\.\\");
    reveal_strlit("\\\\");
    assert forall|i: int| 0 <= i < a.len() implies a[i] == b[i] by {}
    if "\\\\"@.is_prefix_of(a) {
        assert(b.subrange(0, 2) =~= a.subrange(0, 2));
        if end < a.len() {
            if "\\\\.\\"@.is_prefix_of(a) {
                lemma_piece_end_stops(a, 4);
            } else {
                lemma_piece_end(a, 2);
                lemma_piece_end_stops(a, piece_end(a, 2) + 1);
            }
        } else {
            assert(a.last() != '\\');
            assert(a.subrange(0, 2)[0] == '\\');
            assert(a[0] == '\\' && !is_drive(root));
        }
        assert(b[end] == '\\');
        if "\\\\.\\"@.is_prefix_of(a) {
            assert(b.subrange(0, 4) =~= a.subrange(0, 4));
            lemma_piece_end_kept(a, b, 4);
        } else {
            lemma_piece_end(a, 2);
            lemma_piece_end(a, piece_end(a, 2) + 1);
            lemma_piece_end_stops(a, 2);
            lemma_piece_end_kept(a, b, 2);
            lemma_piece_end_kept(a, b, piece_end(a, 2) + 1);
            if "\\\\.\\"@.is_prefix_of(b) {
                assert forall|i: int| 0 <= i < 4 implies a[i] == "\\\\.\\"@[i] by {
                    assert(b.subrange(0, 4)[i] == "\\\\.\\"@[i]);
                }
                assert(a.subrange(0, 4) =~= "\\\\.\\"@);
            }
        }
    } else {
        if "\\\\"@.is_prefix_of(b) {
            assert(b.subrange(0, 2)[0] == '\\' && b.subrange(0, 2)[1] == '\\');
            if a.len() >= 2 {
                assert(a.subrange(0, 2) =~= "\\\\"@);
            }
        }
        if "\\\\.\\"@.is_prefix_of(b) {
            assert(b.subrange(0, 4)[0] == '\\' && b.subrange(0, 4)[1] == '\\');
            assert(b.subrange(0, 2) =~= "\\\\"@);
        }
    }
}

proof fn lemma_windows_joined(root: Seq<char>, relative: Seq<char>)
    requires
        root.len() > 0,
        relative.len() > 0,
        leads_down(PathStyle::Windows, relative),
        is_settled(PathStyle::Windows, root),
        !is_verbatim(PathStyle::Windows, root),
    ensures
        components(PathStyle::Windows, joined_path(PathStyle::Windows, root, relative))
            == components(PathStyle::Windows, root) + inner_parts(
            path_pieces(PathStyle::Windows, relative),
            false,
        ),
{
    let style = PathStyle::Windows;
    let path = joined_path(style, root, relative);
    let a = unified(style, root);
    let b = unified(style, path);
    let below = unified(style, relative);
    let end = prefix_len(style, root);
    lemma_windows_text(root, relative);
    lemma_windows_prefix(root, relative);
    lemma_leads_down(style, relative);
    lemma_prefix_len(style, root);
    reveal_strlit("\\\\");
    let x = behind_prefix(style, root);
    let y = behind_prefix(style, path);
    let r = pieces(below, '\\');
    assert(path_pieces(style, relative) == r);
    lemma_pieces_len(x, '\\');
    lemma_pieces_len(below, '\\');
    assert(b.take(end) =~= a.take(end));
    assert(prefix_of(style, path) == prefix_of(style, root));
    assert(is_drive(root) ==> a[0] == root[0] && a[1] == ':');
    if is_drive(root) {
        assert(!"\\\\"@.is_prefix_of(a)) by {
            if "\\\\"@.is_prefix_of(a) {
                assert(a.subrange(0, 2)[0] == '\\');
            }
        }
        reveal_strlit("\\\\.\\");
        assert(!"\\\\.\\"@.is_prefix_of(a)) by {
            if "\\\\.\\"@.is_prefix_of(a) {
                assert(a.subrange(0, 4)[0] == '\\');
            }
        }
        assert(end == 2);
        assert(path[0] == root[0] && path[1] == root[1]);
    }
    if a.last() == '\\' {
        if end > 0 && end == a.len() {
            reveal_strlit("\\\\.\\");
            if "\\\\.\\"@.is_prefix_of(a) {
                assert(a.subrange(0, 4)[0] == '\\' && a.subrange(0, 4)[1] == '\\');
                assert(a.subrange(0, 2) =~= "\\\\"@);
            }
            if "\\\\"@.is_prefix_of(a) {
                assert(a[end - 1] != '\\');
            } else {
                assert(end == 2 && is_drive(a));
            }
            assert(false);
        }
        let front = x.drop_last();
        assert(x =~= front.push('\\'));
        assert(y =~= x + below);
        lemma_pieces_joined(front, below, '\\');
        lemma_pieces_len(front, '\\');
        lemma_inner_joined(pieces(front, '\\'), r, false);
        assert(pieces(x, '\\').drop_last() =~= pieces(front, '\\'));
        assert(inner_parts(pieces(x, '\\'), false) =~= inner_parts(pieces(front, '\\'), false));
        assert(pieces(y, '\\')[0] == pieces(front, '\\')[0]);
        assert(pieces(x, '\\')[0] == pieces(front, '\\')[0]);
    } else if is_drive(root) && root.len() == 2 {
        assert(x =~= Seq::<char>::empty());
        assert(y =~= below);
        lemma_inner_of_nothing(false);
        assert(inner_parts(pieces(x, '\\'), false) + inner_parts(r, false) =~= inner_parts(
            r,
            false,
        ));
    } else {
        assert(y =~= x.push('\\') + below);
        lemma_pieces_joined(x, below, '\\');
        lemma_inner_joined(pieces(x, '\\'), r, false);
        assert(pieces(y, '\\')[0] == pieces(x, '\\')[0]);
    }
    if x.len() > 0 {
        assert(y[0] == x[0]);
    }
    assert(is_drive(path) == is_drive(root) || end == 0) by {
        if root.len() >= 2 {
            assert(path[0] == root[0] && path[1] == root[1]);
        }
    }
    assert(has_root(style, path) == has_root(style, root));
    assert(lead(style, path) =~= lead(style, root));
    assert(components(style, path) =~= components(style, root) + inner_parts(r, false));
}

/// Only in a verbatim path does a dot count behind the first place.
pub(crate) proof fn lemma_no_dots(parts: Seq<Seq<char>>, i: int)
    requires
        0 <= i < inner_parts(parts, false).len(),
    ensures
        !(inner_parts(parts, false)[i] is Here),
    decreases parts.len(),
{
    if parts.len() > 0 && i < inner_parts(parts.drop_last(), false).len() {
        lemma_no_dots(parts.drop_last(), i);
    }
}

/// No piece holds the character between pieces.
proof fn lemma_pieces_free(s: Seq<char>, c: char, i: int)
    requires
        0 <= i < pieces(s, c).len(),
    ensures
        !pieces(s, c)[i].contains(c),
    decreases s.len(),
{
    if s.len() > 0 {
        let front = s.drop_last();
        lemma_pieces_len(front, c);
        let before = pieces(front, c);
        if i < before.len() {
            lemma_pieces_free(front, c, i);
        }
        if s.last() != c && i == before.len() - 1 {
            let piece = before.last().push(s.last());
            assert(pieces(s, c)[i] == piece);
            if piece.contains(c) {
                let k = choose|k: int| 0 <= k < piece.len() && piece[k] == c;
                assert(before.last()[k] == c);
                assert(before[i].contains(c));
            }
        }
    }
}

/// Every text that a path names is one of its pieces, and is not empty.
proof fn lemma_inner_text(parts: Seq<Seq<char>>, verbatim: bool, i: int)
    requires
        0 <= i < inner_parts(parts, verbatim).len(),
    ensures
        part_text(inner_parts(parts, verbatim)[i]).len() > 0,
        parts.contains(part_text(inner_parts(parts, verbatim)[i])),
    decreases parts.len(),
{
    if parts.len() > 0 {
        reveal_strlit(".");
        reveal_strlit("..");
        let before = inner_parts(parts.drop_last(), verbatim);
        if i < before.len() {
            lemma_inner_text(parts.drop_last(), verbatim, i);
            let text = part_text(before[i]);
            let k = choose|k: int| 0 <= k < parts.drop_last().len() && parts.drop_last()[k] == text;
            assert(parts[k] == text);
        } else {
            assert(parts[parts.len() - 1] == part_text(inner_parts(parts, verbatim)[i]));
        }
    }
}

/// What pieces name is named again by its texts.
proof fn lemma_inner_again(parts: Seq<Seq<char>>, verbatim: bool)
    ensures
        inner_parts(part_texts(inner_parts(parts, verbatim)), true) == inner_parts(parts, verbatim),
    decreases parts.len(),
{
    if parts.len() == 0 {
        assert(part_texts(inner_parts(parts, verbatim)) =~= Seq::<Seq<char>>::empty());
    } else {
        reveal_strlit(".");
        reveal_strlit("..");
        assert("."@.len() == 1 && ".."@.len() == 2);
        lemma_inner_again(parts.drop_last(), verbatim);
        let before = inner_parts(parts.drop_last(), verbatim);
        match piece_part(parts.last(), verbatim) {
            Some(part) => {
                let all = part_texts(before.push(part));
                assert(all =~= part_texts(before).push(parts.last()));
                assert(all.drop_last() =~= part_texts(before));
                assert(piece_part(parts.last(), true) == Some(part));
            },
            None => {},
        }
    }
}

proof fn lemma_whole_piece(s: Seq<char>, c: char)
    requires
        !s.contains(c),
    ensures
        pieces(s, c) == seq![s],
    decreases s.len(),
{
    if s.len() > 0 {
        let front = s.drop_last();
        assert(!front.contains(c)) by {
            if front.contains(c) {
                let k = choose|k: int| 0 <= k < front.len() && front[k] == c;
                assert(s[k] == c);
            }
        }
        lemma_whole_piece(front, c);
        assert(s[s.len() - 1] != c);
        assert(front.push(s.last()) =~= s);
        assert(pieces(s, c) =~= seq![s]);
    } else {
        assert(s =~= Seq::<char>::empty());
    }
}

proof fn lemma_pieces_of_joined(names: Seq<Seq<char>>)
    requires
        names.len() > 0,
        forall|i: int| 0 <= i < names.len() ==> !(#[trigger] names[i]).contains('\\'),
    ensures
        pieces(joined(names, "\\"@), '\\') == names,
    decreases names.len(),
{
    reveal_strlit("\\");
    if names.len() == 1 {
        lemma_whole_piece(names[0], '\\');
        assert(names =~= seq![names[0]]);
    } else {
        let front = names.drop_last();
        assert forall|i: int| 0 <= i < front.len() implies !(#[trigger] front[i]).contains('\\') by {
            assert(front[i] == names[i]);
        }
        lemma_pieces_of_joined(front);
        let start = joined(front, "\\"@);
        assert(!names[names.len() - 1].contains('\\'));
        lemma_whole_piece(names.last(), '\\');
        lemma_pieces_joined(start, names.last(), '\\');
        assert(start + "\\"@ =~= start.push('\\'));
        assert(front + seq![names.last()] =~= names);
    }
}

/// What follows the prefix of a verbatim path has no bearing on how the prefix is read.
proof fn lemma_verbatim_text(root: Seq<char>, path: Seq<char>)
    requires
        is_verbatim(PathStyle::Windows, root),
        is_verbatim(PathStyle::Windows, path),
        4 <= prefix_len(PathStyle::Windows, root) < root.len(),
        prefix_len(PathStyle::Windows, root) < path.len(),
        unified(PathStyle::Windows, root)[prefix_len(PathStyle::Windows, root)] == '\\',
        path[prefix_len(PathStyle::Windows, root)] == '\\',
        forall|i: int|
            0 <= i < prefix_len(PathStyle::Windows, root) ==> #[trigger] path[i] == root[i],
    ensures
        forall|i: int|
            0 <= i <= prefix_len(PathStyle::Windows, root) ==> #[trigger] unified(
                PathStyle::Windows,
                path,
            )[i] == unified(PathStyle::Windows, root)[i],
        forall|i: int|
            prefix_len(PathStyle::Windows, root) < i < path.len() ==> #[trigger] unified(
                PathStyle::Windows,
                path,
            )[i] == path[i],
        unified(PathStyle::Windows, path).len() == path.len(),
{
    let style = PathStyle::Windows;
    let end = prefix_len(style, root);
    let a = unified(style, root);
    reveal_strlit("\\\\?\\");
    reveal_strlit("\\\\?\\UNC");
    reveal_strlit("\\\\?\\UNC\\");
    assert forall|i: int| 0 <= i < 4 implies root[i] == "\\\\?\\"@[i] && path[i] == "\\\\?\\"@[i] by {
        assert(root.subrange(0, 4)[i] == "\\\\?\\"@[i]);
        assert(path.subrange(0, 4)[i] == "\\\\?\\"@[i]);
    }
    let unc = |t: Seq<char>| t.len() >= 7 && t[4] == 'U' && t[5] == 'N' && t[6] == 'C';
    assert("\\\\?\\UNC"@.is_prefix_of(root) == unc(root)) by {
        if "\\\\?\\UNC"@.is_prefix_of(root) {
            assert(root.subrange(0, 7)[4] == 'U' && root.subrange(0, 7)[5] == 'N'
                && root.subrange(0, 7)[6] == 'C');
        } else if unc(root) {
            assert(root.subrange(0, 7) =~= "\\\\?\\UNC"@);
        }
    }
    assert("\\\\?\\UNC"@.is_prefix_of(path) == unc(path)) by {
        if "\\\\?\\UNC"@.is_prefix_of(path) {
            assert(path.subrange(0, 7)[4] == 'U' && path.subrange(0, 7)[5] == 'N'
                && path.subrange(0, 7)[6] == 'C');
        } else if unc(path) {
            assert(path.subrange(0, 7) =~= "\\\\?\\UNC"@);
        }
    }
    assert("\\\\?\\UNC\\"@.is_prefix_of(a) == (unc(a) && a.len() >= 8 && a[7] == '\\')) by {
        if "\\\\?\\UNC\\"@.is_prefix_of(a) {
            assert(a.subrange(0, 8)[4] == 'U' && a.subrange(0, 8)[5] == 'N' && a.subrange(0, 8)[6]
                == 'C' && a.subrange(0, 8)[7] == '\\');
        } else if unc(a) && a.len() >= 8 && a[7] == '\\' {
            assert(a.subrange(0, 8) =~= "\\\\?\\UNC\\"@);
        }
    }
    lemma_piece_end(a, 8);
    lemma_piece_end(a, piece_end(a, 8) + 1);
    lemma_piece_end(a, 4);
    lemma_piece_end(a, 6);
    lemma_piece_end(a, 7);
    assert(root.skip(4).len() == root.len() - 4 && path.skip(4).len() == path.len() - 4);
    if unc(root) {
        assert(a[4] == 'U' && a[5] == 'N' && a[6] == 'C');
        assert(piece_end(a, 4) == piece_end(a, 5) && piece_end(a, 5) == piece_end(a, 6)
            && piece_end(a, 6) == piece_end(a, 7));
        if a.len() >= 8 && a[7] != '\\' {
            assert(piece_end(a, 7) == piece_end(a, 8));
        }
        assert(end >= 8);
        assert(path[4] == 'U' && path[5] == 'N' && path[6] == 'C' && path[7] == root[7]);
    } else if is_drive(root.skip(4)) {
        assert(root[5] == root.skip(4)[1] && root[4] == root.skip(4)[0]);
        assert(a[4] == root[4] && a[5] == ':');
        assert(piece_end(a, 4) == piece_end(a, 5) && piece_end(a, 5) == piece_end(a, 6));
        assert(end >= 6);
        assert(path[4] == root[4] && path[5] == ':');
        assert(path.skip(4)[0] == path[4] && path.skip(4)[1] == path[5]);
        assert(is_drive(path.skip(4)));
        if end > 6 {
            assert(path[6] == root[6]);
        }
    } else {
        assert(a == root);
        if unc(path) {
            if end >= 7 {
                assert(path[4] == root[4] && path[5] == root[5] && path[6] == root[6]);
            }
            assert(false);
        }
        if is_drive(path.skip(4)) {
            assert(path.skip(4)[0] == path[4] && path.skip(4)[1] == path[5]);
            if end >= 6 {
                assert(path[4] == root[4] && path[5] == root[5]);
                assert(root.skip(4)[0] == root[4] && root.skip(4)[1] == root[5]);
            }
            assert(false);
        }
    }
}

proof fn lemma_verbatim_joined(root: Seq<char>, relative: Seq<char>)
    requires
        relative.len() > 0,
        leads_down(PathStyle::Windows, relative),
        is_settled(PathStyle::Windows, root),
        is_verbatim(PathStyle::Windows, root),
    ensures
        components(PathStyle::Windows, joined_path(PathStyle::Windows, root, relative))
            == components(PathStyle::Windows, root) + inner_parts(
            path_pieces(PathStyle::Windows, relative),
            false,
        ),
{
    let style = PathStyle::Windows;
    let end = prefix_len(style, root);
    let prefix = root.take(end);
    let names = inner_texts(style, root) + inner_texts(style, relative);
    let path = joined_path(style, root, relative);
    let old_parts = inner_parts(path_pieces(style, root), true);
    let new_parts = inner_parts(path_pieces(style, relative), false);
    reveal_strlit("\\\\?\\");
    reveal_strlit("\\\\?\\UNC\\");
    reveal_strlit("\\\\");
    lemma_leads_down(style, relative);
    lemma_prefix_len(style, root);
    let a = unified(style, root);
    let b = unified(style, path);
    reveal_strlit("\\\\?\\UNC");
    assert forall|i: int| 0 <= i < 4 implies a[i] == "\\\\?\\"@[i] && root[i] == "\\\\?\\"@[i] by {
        assert(root.subrange(0, 4)[i] == "\\\\?\\"@[i]);
    }
    assert(a.subrange(0, 2) =~= "\\\\"@);
    assert(has_root(style, root));
    assert(behind_prefix(style, root)[0] == a[end]);
    lemma_piece_end(a, 4);
    lemma_piece_end(a, 8);
    lemma_piece_end(a, piece_end(a, 8) + 1);
    assert(end >= 4);
    assert(path =~= prefix.push('\\') + joined(names, "\\"@));
    assert(path.subrange(0, 4) =~= root.subrange(0, 4));
    assert(is_verbatim(style, path));
    lemma_verbatim_text(root, path);
    assert(prefix_len(style, path) == end) by {
        if "\\\\?\\UNC\\"@.is_prefix_of(a) {
            assert(b.subrange(0, 8) =~= a.subrange(0, 8));
            lemma_piece_end_stops(a, 8);
            lemma_piece_end_kept(a, b, 8);
            lemma_piece_end_kept(a, b, piece_end(a, 8) + 1);
        } else {
            if "\\\\?\\UNC\\"@.is_prefix_of(b) {
                assert forall|i: int| 0 <= i < 8 implies b[i] == "\\\\?\\UNC\\"@[i] by {
                    assert(b.subrange(0, 8)[i] == "\\\\?\\UNC\\"@[i]);
                }
                if end < 7 {
                    assert(b[end] == '\\');
                    assert(false);
                }
                assert(a.subrange(0, 8) =~= "\\\\?\\UNC\\"@);
                assert(false);
            }
            lemma_piece_end_kept(a, b, 4);
        }
    }
    assert(b.take(end) =~= a.take(end));
    assert(behind_prefix(style, path) =~= seq!['\\'] + joined(names, "\\"@));
    let none = Seq::<char>::empty();
    assert(none.push('\\') + joined(names, "\\"@) =~= behind_prefix(style, path));
    lemma_pieces_joined(none, joined(names, "\\"@), '\\');
    assert forall|i: int| 0 <= i < names.len() implies !(#[trigger] names[i]).contains('\\') by {
        if i < old_parts.len() {
            lemma_inner_text(path_pieces(style, root), true, i);
            let k = choose|k: int|
                0 <= k < path_pieces(style, root).len() && path_pieces(style, root)[k] == names[i];
            lemma_pieces_free(behind_prefix(style, root), '\\', k);
        } else {
            let j = i - old_parts.len();
            lemma_inner_text(path_pieces(style, relative), false, j);
            let k = choose|k: int|
                0 <= k < path_pieces(style, relative).len() && path_pieces(style, relative)[k]
                    == names[i];
            lemma_pieces_free(behind_prefix(style, relative), '\\', k);
        }
    }
    lemma_inner_again(path_pieces(style, root), true);
    lemma_inner_again(path_pieces(style, relative), false);
    lemma_inner_joined(inner_texts(style, root), inner_texts(style, relative), true);
    assert(inner_parts(names, true) == old_parts + new_parts);
    let tail = pieces(joined(names, "\\"@), '\\');
    lemma_inner_of_nothing(true);
    lemma_inner_joined(seq![none], tail, true);
    if names.len() > 0 {
        lemma_pieces_of_joined(names);
    } else {
        assert(tail =~= seq![none]);
        assert(old_parts + new_parts =~= Seq::<Part>::empty());
    }
    assert(inner_parts(path_pieces(style, path), true) =~= old_parts + new_parts);
    assert(lead(style, path) =~= lead(style, root));
    assert(components(style, path) =~= components(style, root) + new_parts);
}

/// Joining a path that leads down to a directory adds what it names to the directory's components,
/// so the result lies under the directory.
pub proof fn lemma_joined_components(style: PathStyle, root: Seq<char>, relative: Seq<char>)
    requires
        root.len() > 0,
        relative.len() > 0,
        is_settled(style, root),
        leads_down(style, relative),
    ensures
        components(style, joined_path(style, root, relative)) == components(style, root)
            + inner_parts(path_pieces(style, relative), false),
        under(style, joined_path(style, root, relative), root),
{
    lemma_leads_down(style, relative);
    if style == PathStyle::Posix {
        lemma_posix_joined(root, relative);
    } else if is_verbatim(style, root) {
        lemma_verbatim_joined(root, relative);
    } else {
        lemma_windows_joined(root, relative);
    }
    let whole = components(style, joined_path(style, root, relative));
    assert(components(style, root) =~= whole.take(components(style, root).len() as int));
}

} // verus!
