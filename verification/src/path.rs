//! Paths as text, by the rules of the system that they are for.

use crate::text::{from_chars, pieces, same, split, starts_with, texts, to_chars};
use vstd::prelude::*;
use vstd::string::*;

verus! {

/// The rules that a path is read by: `/` between its components, or `\` and `/` behind a prefix
/// such as a drive.
#[derive(Debug, Clone, Copy, PartialEq, Eq, Structural)]
pub enum PathStyle {
    Posix,
    Windows,
}

/// A component of a path.
pub ghost enum Part {
    /// A drive, a network share or a device.
    Prefix(Seq<char>),
    /// The prefix of a verbatim path.
    Verbatim(Seq<char>),
    /// The root directory.
    Root,
    /// The current directory, `.`.
    Here,
    /// The parent directory, `..`.
    Up,
    /// An ordinary name.
    Name(Seq<char>),
}

/// A component of a path.
#[derive(Debug, PartialEq, Eq)]
pub enum Component {
    Prefix(String),
    Verbatim(String),
    Root,
    Here,
    Up,
    Name(String),
}

impl View for Component {
    type V = Part;

    open spec fn view(&self) -> Part {
        match self {
            Component::Prefix(text) => Part::Prefix(text@),
            Component::Verbatim(text) => Part::Verbatim(text@),
            Component::Root => Part::Root,
            Component::Here => Part::Here,
            Component::Up => Part::Up,
            Component::Name(text) => Part::Name(text@),
        }
    }
}

/// The components of a list.
pub open spec fn part_views(items: Seq<Component>) -> Seq<Part> {
    Seq::new(items.len(), |i: int| items[i]@)
}

/// What stands between two components.
pub open spec fn separator(style: PathStyle) -> char {
    match style {
        PathStyle::Posix => '/',
        PathStyle::Windows => '\\',
    }
}

/// A path in which only `\` separates, but for one place, and a dot is a component anywhere.
pub open spec fn is_verbatim(style: PathStyle, path: Seq<char>) -> bool {
    style == PathStyle::Windows && "\\\\?\\"@.is_prefix_of(path)
}

/// A separator, whichever of the two it is.
pub open spec fn unified_char(c: char) -> char {
    if c == '/' {
        '\\'
    } else {
        c
    }
}

/// A text that starts with a drive letter and a colon.
pub open spec fn is_drive(text: Seq<char>) -> bool {
    text.len() >= 2 && ('a' <= text[0] <= 'z' || 'A' <= text[0] <= 'Z') && text[1] == ':'
}

/// The place in a verbatim path where either separator counts: behind `UNC`, or behind a drive.
pub open spec fn loose_place(path: Seq<char>) -> int {
    if "\\\\?\\UNC"@.is_prefix_of(path) {
        7
    } else if is_drive(path.skip(4)) {
        6
    } else {
        path.len() as int
    }
}

/// A path with one kind of separator.
pub open spec fn unified(style: PathStyle, path: Seq<char>) -> Seq<char> {
    if style == PathStyle::Posix {
        path
    } else if is_verbatim(style, path) {
        let at = loose_place(path);
        if at < path.len() {
            path.update(at, unified_char(path[at]))
        } else {
            path
        }
    } else {
        Seq::new(path.len(), |i: int| unified_char(path[i]))
    }
}

/// Where the piece that starts at `from` ends: before the next `\`, or with the text.
pub open spec fn piece_end(text: Seq<char>, from: int) -> int
    decreases text.len() - from,
{
    if from >= text.len() {
        text.len() as int
    } else if text[from] == '\\' {
        from
    } else {
        piece_end(text, from + 1)
    }
}

/// Where a server and its share end that start at `from`; a share may be missing.
pub open spec fn share_end(text: Seq<char>, from: int) -> int {
    let server = piece_end(text, from);
    let share = piece_end(text, server + 1);
    if share > server + 1 {
        share
    } else {
        server
    }
}

/// The length of the prefix of a path: a drive; or two separators with a server and its share,
/// with `.` and a device, or, where the path is verbatim, with `?` and a name or with `?`, `UNC`, a
/// server and its share.
pub open spec fn prefix_len(style: PathStyle, path: Seq<char>) -> int {
    let text = unified(style, path);
    if style == PathStyle::Posix {
        0
    } else if is_verbatim(style, path) {
        if "\\\\?\\UNC\\"@.is_prefix_of(text) {
            share_end(text, 8)
        } else {
            piece_end(text, 4)
        }
    } else if "\\\\.\\"@.is_prefix_of(text) {
        piece_end(text, 4)
    } else if "\\\\"@.is_prefix_of(text) {
        let server = piece_end(text, 2);
        let share = share_end(text, 2);
        if 2 < server < share {
            share
        } else {
            0
        }
    } else if is_drive(text) {
        2
    } else {
        0
    }
}

/// A capital letter in place of a small one.
pub open spec fn capital(c: char) -> char {
    if 'a' <= c <= 'z' {
        ((c as u8) - 32) as char
    } else {
        c
    }
}

/// A prefix as it is compared: the letter of a drive is a capital one.
pub open spec fn prefix_of(style: PathStyle, path: Seq<char>) -> Seq<char> {
    let text = unified(style, path).take(prefix_len(style, path));
    let at: int = if is_verbatim(style, path) {
        4
    } else {
        0
    };
    if text.len() == at + 2 && is_drive(text.skip(at)) {
        text.update(at, capital(text[at]))
    } else {
        text
    }
}

/// What follows the prefix of a path.
pub open spec fn behind_prefix(style: PathStyle, path: Seq<char>) -> Seq<char> {
    unified(style, path).skip(prefix_len(style, path))
}

/// The path starts at a root directory. A share or a device has one even where no separator
/// follows.
pub open spec fn has_root(style: PathStyle, path: Seq<char>) -> bool {
    let rest = behind_prefix(style, path);
    ||| rest.len() > 0 && rest[0] == separator(style)
    ||| prefix_len(style, path) > 0 && !is_verbatim(style, path) && !is_drive(path)
}

/// What a piece of a path names; an empty one names nothing, and neither does a dot unless the
/// path is verbatim.
pub open spec fn piece_part(piece: Seq<char>, verbatim: bool) -> Option<Part> {
    if piece.len() == 0 {
        None
    } else if piece == "."@ {
        if verbatim {
            Some(Part::Here)
        } else {
            None
        }
    } else if piece == ".."@ {
        Some(Part::Up)
    } else {
        Some(Part::Name(piece))
    }
}

/// What the pieces of a path name.
pub open spec fn inner_parts(parts: Seq<Seq<char>>, verbatim: bool) -> Seq<Part>
    decreases parts.len(),
{
    if parts.len() == 0 {
        Seq::empty()
    } else {
        let before = inner_parts(parts.drop_last(), verbatim);
        match piece_part(parts.last(), verbatim) {
            Some(part) => before.push(part),
            None => before,
        }
    }
}

/// The pieces of a path behind its prefix.
pub open spec fn path_pieces(style: PathStyle, path: Seq<char>) -> Seq<Seq<char>> {
    pieces(behind_prefix(style, path), separator(style))
}

/// What a path starts with: its prefix and the root, or a dot in first place.
pub open spec fn lead(style: PathStyle, path: Seq<char>) -> Seq<Part> {
    let prefix = if prefix_len(style, path) > 0 {
        seq![
            if is_verbatim(style, path) {
                Part::Verbatim(prefix_of(style, path))
            } else {
                Part::Prefix(prefix_of(style, path))
            },
        ]
    } else {
        Seq::empty()
    };
    if has_root(style, path) {
        prefix.push(Part::Root)
    } else if prefix.len() == 0 && path_pieces(style, path)[0] == "."@ {
        seq![Part::Here]
    } else {
        prefix
    }
}

/// The components of a path. Repeated separators count once, and a dot counts only in first place
/// or where the path is verbatim.
pub open spec fn components(style: PathStyle, path: Seq<char>) -> Seq<Part> {
    lead(style, path) + inner_parts(path_pieces(style, path), is_verbatim(style, path))
}

/// Every component is an ordinary name.
pub open spec fn only_names(style: PathStyle, path: Seq<char>) -> bool {
    forall|i: int|
        0 <= i < components(style, path).len() ==> (#[trigger] components(style, path)[i]) is Name
}

/// The path leads down: it has no prefix, does not start at the root, and leads out of no
/// directory.
pub open spec fn leads_down(style: PathStyle, path: Seq<char>) -> bool {
    forall|i: int|
        0 <= i < components(style, path).len() ==> {
            let part = #[trigger] components(style, path)[i];
            part is Here || part is Name
        }
}

/// `path` is `root`, or lies below it.
pub open spec fn under(style: PathStyle, path: Seq<char>, root: Seq<char>) -> bool {
    components(style, root).is_prefix_of(components(style, path))
}

fn unified_chars(style: PathStyle, path: &str, verbatim: bool) -> (out: Vec<char>)
    requires
        verbatim == is_verbatim(style, path@),
    ensures
        out@ == unified(style, path@),
{
    let chars = to_chars(path);
    if style == PathStyle::Posix {
        return chars;
    }
    if verbatim {
        proof {
            reveal_strlit("\\\\?\\");
        }
        let length: usize = chars.len();
        let at: usize = if starts_with(path, "\\\\?\\UNC") {
            7
        } else if drive(&chars, 4) {
            6
        } else {
            length
        };
        let mut chars = chars;
        if at < chars.len() && chars[at] == '/' {
            chars.set(at, '\\');
        }
        proof {
            assert(chars@ =~= unified(style, path@));
        }
        return chars;
    }
    let mut out: Vec<char> = Vec::new();
    let mut i: usize = 0;
    while i < chars.len()
        invariant
            i <= chars@.len(),
            out@ =~= Seq::new(i as nat, |j: int| unified_char(chars@[j])),
        decreases chars@.len() - i,
    {
        if chars[i] == '/' {
            out.push('\\');
        } else {
            out.push(chars[i]);
        }
        i = i + 1;
    }
    proof {
        assert(out@ =~= unified(style, path@));
    }
    out
}

pub(crate) proof fn lemma_piece_end(text: Seq<char>, from: int)
    ensures
        from <= text.len() ==> from <= piece_end(text, from) <= text.len(),
        piece_end(text, from) <= text.len(),
    decreases text.len() - from,
{
    if from < text.len() && text[from] != '\\' {
        lemma_piece_end(text, from + 1);
    }
}

pub(crate) proof fn lemma_prefix_len(style: PathStyle, path: Seq<char>)
    ensures
        0 <= prefix_len(style, path) <= path.len(),
{
    let text = unified(style, path);
    reveal_strlit("\\\\?\\UNC\\");
    reveal_strlit("\\\\?\\");
    reveal_strlit("\\\\.\\");
    reveal_strlit("\\\\");
    lemma_piece_end(text, 2);
    lemma_piece_end(text, 4);
    lemma_piece_end(text, 8);
    lemma_piece_end(text, piece_end(text, 2) + 1);
    lemma_piece_end(text, piece_end(text, 8) + 1);
}

fn find_piece_end(text: &Vec<char>, from: usize) -> (out: usize)
    requires
        from <= text@.len(),
    ensures
        out == piece_end(text@, from as int),
        from <= out <= text@.len(),
{
    let mut i: usize = from;
    while i < text.len() && text[i] != '\\'
        invariant
            from <= i <= text@.len(),
            piece_end(text@, from as int) == piece_end(text@, i as int),
        decreases text@.len() - i,
    {
        i = i + 1;
    }
    i
}

fn find_share_end(text: &Vec<char>, from: usize) -> (out: usize)
    requires
        from <= text@.len(),
    ensures
        out == share_end(text@, from as int),
        from <= out <= text@.len(),
{
    let server = find_piece_end(text, from);
    if server < text.len() {
        let share = find_piece_end(text, server + 1);
        if share > server + 1 {
            return share;
        }
    }
    server
}

pub(crate) fn drive(text: &Vec<char>, at: usize) -> (yes: bool)
    requires
        at <= text@.len(),
    ensures
        yes == is_drive(text@.skip(at as int)),
{
    text.len() - at >= 2 && (('a' <= text[at] && text[at] <= 'z') || ('A' <= text[at] && text[at]
        <= 'Z')) && text[at + 1] == ':'
}

fn find_prefix_len(style: PathStyle, path: &str, text: &Vec<char>, verbatim: bool) -> (out: usize)
    requires
        text@ == unified(style, path@),
        verbatim == is_verbatim(style, path@),
    ensures
        out == prefix_len(style, path@),
        out <= text@.len(),
{
    if style == PathStyle::Posix {
        return 0;
    }
    let whole = from_chars(text, 0, text.len());
    proof {
        reveal_strlit("\\\\?\\UNC\\");
        reveal_strlit("\\\\?\\");
        reveal_strlit("\\\\.\\");
        reveal_strlit("\\\\");
        assert(whole@ =~= text@);
        assert(text@.skip(0) =~= text@);
    }
    if verbatim {
        if starts_with(whole.as_str(), "\\\\?\\UNC\\") {
            find_share_end(text, 8)
        } else {
            find_piece_end(text, 4)
        }
    } else if starts_with(whole.as_str(), "\\\\.\\") {
        find_piece_end(text, 4)
    } else if starts_with(whole.as_str(), "\\\\") {
        let server = find_piece_end(text, 2);
        let share = find_share_end(text, 2);
        if 2 < server && server < share {
            share
        } else {
            0
        }
    } else if drive(text, 0) {
        2
    } else {
        0
    }
}

fn prefix_text(style: PathStyle, path: &str, text: &Vec<char>, verbatim: bool, end: usize) -> (out:
    String)
    requires
        text@ == unified(style, path@),
        verbatim == is_verbatim(style, path@),
        end == prefix_len(style, path@),
        end <= text@.len(),
    ensures
        out@ == prefix_of(style, path@),
{
    let mut prefix = to_chars(from_chars(text, 0, end).as_str());
    let at: usize = if verbatim {
        4
    } else {
        0
    };
    let ghost cut = unified(style, path@).take(prefix_len(style, path@));
    proof {
        assert(prefix@ =~= cut);
    }
    if prefix.len() == at + 2 && drive(&prefix, at) {
        let c: char = prefix[at];
        if 'a' <= c && c <= 'z' {
            let lifted: u8 = (c as u8) - 32;
            prefix.set(at, lifted as char);
        }
        proof {
            assert(prefix@ =~= cut.update(at as int, capital(cut[at as int])));
        }
    }
    let length: usize = prefix.len();
    let out = from_chars(&prefix, 0, length);
    proof {
        assert(out@ =~= prefix@);
    }
    out
}

pub(crate) proof fn lemma_pieces_len(s: Seq<char>, c: char)
    ensures
        pieces(s, c).len() > 0,
    decreases s.len(),
{
    if s.len() > 0 {
        lemma_pieces_len(s.drop_last(), c);
    }
}

/// A path taken apart: its text with one kind of separator, where its prefix ends, and the pieces
/// behind it.
pub(crate) struct Apart {
    pub verbatim: bool,
    pub text: Vec<char>,
    pub start: usize,
    pub rooted: bool,
    pub pieces: Vec<String>,
}

pub(crate) fn take_apart(style: PathStyle, path: &str) -> (out: Apart)
    ensures
        out.verbatim == is_verbatim(style, path@),
        out.text@ == unified(style, path@),
        out.start == prefix_len(style, path@),
        out.start <= out.text@.len(),
        out.rooted == has_root(style, path@),
        texts(out.pieces@) == path_pieces(style, path@),
        out.pieces@.len() > 0,
{
    let verbatim = style == PathStyle::Windows && starts_with(path, "\\\\?\\");
    let text = unified_chars(style, path, verbatim);
    let start = find_prefix_len(style, path, &text, verbatim);
    let length: usize = text.len();
    let rest = from_chars(&text, start, length);
    let mark: char = match style {
        PathStyle::Posix => '/',
        PathStyle::Windows => '\\',
    };
    let pieces = split(rest.as_str(), mark);
    let rooted = (start < text.len() && text[start] == mark) || (start > 0 && !verbatim && !drive(
        &text,
        0,
    ));
    proof {
        assert(rest@ =~= behind_prefix(style, path@));
        lemma_pieces_len(rest@, mark);
        assert(texts(pieces@).len() == pieces@.len());
        assert(text@.skip(0) =~= text@);
        if style == PathStyle::Windows && !verbatim {
            assert(is_drive(text@) == is_drive(path@));
        }
    }
    Apart { verbatim, text, start, rooted, pieces }
}

/// The components of a path.
pub fn path_components(style: PathStyle, path: &str) -> (out: Vec<Component>)
    ensures
        part_views(out@) == components(style, path@),
{
    let apart = take_apart(style, path);
    let verbatim = apart.verbatim;
    let parts = apart.pieces;
    let mut out: Vec<Component> = Vec::new();
    proof {
        assert(parts@[0]@ == texts(parts@)[0]);
    }
    if apart.start > 0 {
        let prefix = prefix_text(style, path, &apart.text, verbatim, apart.start);
        if verbatim {
            out.push(Component::Verbatim(prefix));
        } else {
            out.push(Component::Prefix(prefix));
        }
    }
    if apart.rooted {
        out.push(Component::Root);
    } else if apart.start == 0 && same(parts[0].as_str(), ".") {
        out.push(Component::Here);
    }
    proof {
        assert(part_views(out@) =~= lead(style, path@));
    }
    let mut i: usize = 0;
    while i < parts.len()
        invariant
            i <= parts@.len(),
            part_views(out@) =~= lead(style, path@) + inner_parts(
                texts(parts@).take(i as int),
                verbatim,
            ),
        decreases parts@.len() - i,
    {
        let ghost before = out@;
        proof {
            assert(texts(parts@).take(i + 1).drop_last() =~= texts(parts@).take(i as int));
            reveal_strlit(".");
            reveal_strlit("..");
            assert("."@.len() == 1 && ".."@.len() == 2);
        }
        let piece = parts[i].as_str();
        if same(piece, "..") {
            out.push(Component::Up);
        } else if same(piece, ".") {
            if verbatim {
                out.push(Component::Here);
            }
        } else if !piece.is_empty() {
            out.push(Component::Name(piece.to_owned()));
        }
        proof {
            match piece_part(texts(parts@)[i as int], verbatim) {
                Some(part) => {
                    assert(part_views(out@) =~= part_views(before).push(part));
                },
                None => {
                    assert(out@ == before);
                },
            }
        }
        i = i + 1;
    }
    proof {
        assert(texts(parts@).take(parts@.len() as int) =~= texts(parts@));
    }
    out
}

/// Tests whether every component of a path is an ordinary name.
pub fn has_only_names(style: PathStyle, path: &str) -> (yes: bool)
    ensures
        yes == only_names(style, path@),
{
    let parts = path_components(style, path);
    let mut i: usize = 0;
    while i < parts.len()
        invariant
            i <= parts@.len(),
            part_views(parts@) == components(style, path@),
            forall|j: int| 0 <= j < i ==> (#[trigger] components(style, path@)[j]) is Name,
        decreases parts@.len() - i,
    {
        proof {
            assert(components(style, path@)[i as int] == parts@[i as int]@);
        }
        match &parts[i] {
            Component::Name(_) => {},
            _ => {
                return false;
            },
        }
        i = i + 1;
    }
    true
}

/// Tests whether a path leads down.
pub fn stays_down(style: PathStyle, path: &str) -> (yes: bool)
    ensures
        yes == leads_down(style, path@),
{
    let parts = path_components(style, path);
    let mut i: usize = 0;
    while i < parts.len()
        invariant
            i <= parts@.len(),
            part_views(parts@) == components(style, path@),
            forall|j: int|
                0 <= j < i ==> {
                    let part = #[trigger] components(style, path@)[j];
                    part is Here || part is Name
                },
        decreases parts@.len() - i,
    {
        proof {
            assert(components(style, path@)[i as int] == parts@[i as int]@);
        }
        match &parts[i] {
            Component::Here => {},
            Component::Name(_) => {},
            _ => {
                return false;
            },
        }
        i = i + 1;
    }
    true
}

fn same_component(a: &Component, b: &Component) -> (yes: bool)
    ensures
        yes == (a@ == b@),
{
    match (a, b) {
        (Component::Prefix(x), Component::Prefix(y)) => same(x.as_str(), y.as_str()),
        (Component::Verbatim(x), Component::Verbatim(y)) => same(x.as_str(), y.as_str()),
        (Component::Root, Component::Root) => true,
        (Component::Here, Component::Here) => true,
        (Component::Up, Component::Up) => true,
        (Component::Name(x), Component::Name(y)) => same(x.as_str(), y.as_str()),
        _ => false,
    }
}

/// Tests whether a path lies under another one.
pub fn lies_under(style: PathStyle, path: &str, root: &str) -> (yes: bool)
    ensures
        yes == under(style, path@, root@),
{
    let parts = path_components(style, path);
    let base = path_components(style, root);
    if base.len() > parts.len() {
        return false;
    }
    let mut i: usize = 0;
    while i < base.len()
        invariant
            i <= base@.len() <= parts@.len(),
            part_views(parts@) == components(style, path@),
            part_views(base@) == components(style, root@),
            forall|j: int| 0 <= j < i ==> part_views(base@)[j] == part_views(parts@)[j],
        decreases base@.len() - i,
    {
        if !same_component(&parts[i], &base[i]) {
            proof {
                assert(part_views(base@)[i as int] != part_views(parts@)[i as int]);
                if components(style, root@).is_prefix_of(components(style, path@)) {
                    assert(components(style, path@).take(base@.len() as int)[i as int]
                        == components(style, root@)[i as int]);
                }
            }
            return false;
        }
        i = i + 1;
    }
    proof {
        assert(components(style, root@) =~= components(style, path@).take(base@.len() as int));
    }
    true
}

/// The file name at the end of a path.
pub open spec fn file_name(style: PathStyle, path: Seq<char>) -> Option<Seq<char>> {
    if components(style, path).len() > 0 {
        match components(style, path).last() {
            Part::Name(name) => Some(name),
            _ => None,
        }
    } else {
        None
    }
}

/// Where the extension of a file name starts: at the last dot that is not its first character.
pub open spec fn extension_dot(name: Seq<char>, at: int) -> bool {
    &&& 0 < at < name.len()
    &&& name[at] == '.'
    &&& forall|j: int| at < j < name.len() ==> name[j] != '.'
}

/// A file name without its extension.
pub open spec fn stem(name: Seq<char>) -> Seq<char> {
    if exists|at: int| extension_dot(name, at) {
        name.take(choose|at: int| extension_dot(name, at))
    } else {
        name
    }
}

/// The extension of a file name.
pub open spec fn extension(name: Seq<char>) -> Option<Seq<char>> {
    if exists|at: int| extension_dot(name, at) {
        Some(name.skip((choose|at: int| extension_dot(name, at)) + 1))
    } else {
        None
    }
}

fn find_extension(name: &Vec<char>) -> (out: Option<usize>)
    ensures
        match out {
            Some(at) => extension_dot(name@, at as int) && forall|k: int| #[trigger]
                extension_dot(name@, k) ==> k == at,
            None => forall|k: int| !extension_dot(name@, k),
        },
{
    let mut i: usize = name.len();
    while i > 1
        invariant
            i <= name@.len(),
            forall|j: int| i <= j < name@.len() ==> name@[j] != '.',
        decreases i,
    {
        if name[i - 1] == '.' {
            proof {
                assert(extension_dot(name@, i - 1));
                assert forall|k: int| #[trigger] extension_dot(name@, k) implies k == i - 1 by {}
            }
            return Some(i - 1);
        }
        i = i - 1;
    }
    None
}

/// The file name at the end of a path, without its extension.
pub fn file_stem(style: PathStyle, path: &str) -> (out: Option<String>)
    ensures
        match out {
            Some(s) => file_name(style, path@) is Some && s@ == stem(file_name(style, path@)->0),
            None => file_name(style, path@) is None,
        },
{
    let parts = path_components(style, path);
    if parts.len() == 0 {
        return None;
    }
    proof {
        assert(components(style, path@).last() == parts@[parts@.len() - 1]@);
    }
    match &parts[parts.len() - 1] {
        Component::Name(last) => {
            let name = to_chars(last.as_str());
            match find_extension(&name) {
                Some(at) => {
                    proof {
                        assert(last@.subrange(0, at as int) =~= last@.take(at as int));
                    }
                    Some(from_chars(&name, 0, at))
                },
                None => Some(last.clone()),
            }
        },
        _ => None,
    }
}

/// Tests the extension of a file name.
pub fn has_extension(name: &str, wanted: &str) -> (yes: bool)
    ensures
        yes == (extension(name@) == Some(wanted@)),
{
    let chars = to_chars(name);
    let length: usize = chars.len();
    match find_extension(&chars) {
        Some(at) => {
            let tail = from_chars(&chars, at + 1, length);
            proof {
                assert(name@.subrange(at + 1, name@.len() as int) =~= name@.skip(at + 1));
            }
            same(tail.as_str(), wanted)
        },
        None => false,
    }
}

} // verus!
