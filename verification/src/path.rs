//! Paths as text, read as Windows reads them: a drive or a network share in
//! front, both slashes as separators, `.` and `..` among the names.
//!
//! A verbatim path, one that starts with `\\?\`, is taken by the letter:
//! behind that start the backslash alone separates and a `.` is a part like
//! any other. Its prefix is a drive (`\\?\C:`), a share
//! (`\\?\UNC\server\share`) or any other name. A device (`\\.\COM1`) is a
//! prefix too.

use crate::text::{ascii_lowercase, chars, same_ignoring_ascii_case, text_of};
use vstd::prelude::*;
use vstd::string::*;

verus! {

pub open spec fn is_sep(c: char) -> bool {
    c == '/' || c == '\\'
}

fn separates(c: char) -> (r: bool)
    ensures
        r == is_sep(c),
{
    c == '/' || c == '\\'
}

/// Whether a character parts two names: in a verbatim path the backslash
/// alone does.
pub open spec fn splits(c: char, verbatim: bool) -> bool {
    c == '\\' || (c == '/' && !verbatim)
}

fn does_split(c: char, verbatim: bool) -> (r: bool)
    ensures
        r == splits(c, verbatim),
{
    c == '\\' || (c == '/' && !verbatim)
}

pub open spec fn is_letter(c: char) -> bool {
    'a' <= c <= 'z' || 'A' <= c <= 'Z'
}

fn letter(c: char) -> (r: bool)
    ensures
        r == is_letter(c),
{
    'a' <= c && c <= 'z' || 'A' <= c && c <= 'Z'
}

/// Whether a path starts with a drive, `C:`.
pub open spec fn has_drive(s: Seq<char>) -> bool {
    s.len() >= 2 && is_letter(s[0]) && s[1] == ':'
}

/// Whether a path is verbatim: it starts with `\\?\`, in backslashes.
pub open spec fn verbatim(s: Seq<char>) -> bool {
    s.len() >= 4 && s[0] == '\\' && s[1] == '\\' && s[2] == '?' && s[3] == '\\'
}

/// Whether a verbatim path starts with a share, `\\?\UNC\`.
pub open spec fn verbatim_share(s: Seq<char>) -> bool {
    verbatim(s) && s.len() >= 8 && s[4] == 'U' && s[5] == 'N' && s[6] == 'C' && is_sep(s[7])
}

/// Whether a verbatim path starts with a drive and nothing more, `\\?\C:`.
pub open spec fn verbatim_drive(s: Seq<char>) -> bool {
    verbatim(s) && s.len() >= 6 && is_letter(s[4]) && s[5] == ':' && (s.len() == 6 || is_sep(s[6]))
}

/// Where the name that starts at `from` ends: at the next separator.
pub open spec fn name_end(s: Seq<char>, from: int, verbatim: bool) -> int
    decreases s.len() - from,
{
    if 0 <= from < s.len() && !splits(s[from], verbatim) {
        name_end(s, from + 1, verbatim)
    } else {
        from
    }
}

/// Whether a path starts with a network share, `\\server\share`, or with a
/// device, `\\.\`, whose name may be empty.
pub open spec fn has_share(s: Seq<char>) -> bool {
    let server = name_end(s, 2, false);
    &&& s.len() > 2 && is_sep(s[0]) && is_sep(s[1])
    &&& 2 < server < s.len()
    &&& server + 1 < name_end(s, server + 1, false) || (server == 3 && s[2] == '.')
}

/// Where a server and its share end, or the server alone where no share is
/// named behind it.
pub open spec fn share_end(s: Seq<char>, from: int) -> int {
    let server = name_end(s, from, true);
    if server < s.len() && server + 1 < name_end(s, server + 1, true) {
        name_end(s, server + 1, true)
    } else {
        server
    }
}

/// How many characters the prefix of a path takes: the drive, the share or
/// what a verbatim path starts with.
pub open spec fn prefix_len(s: Seq<char>) -> int {
    if has_drive(s) {
        2
    } else if verbatim_share(s) {
        share_end(s, 8)
    } else if verbatim_drive(s) {
        6
    } else if verbatim(s) {
        name_end(s, 4, true)
    } else if has_share(s) {
        name_end(s, name_end(s, 2, false) + 1, false)
    } else {
        0
    }
}

/// Where the names of a path start: behind the prefix and the separator of
/// the root.
pub open spec fn body(s: Seq<char>) -> int {
    let prefix = prefix_len(s);
    if prefix < s.len() && is_sep(s[prefix]) {
        prefix + 1
    } else {
        prefix
    }
}

/// Whether a path starts at a root. Every prefix but a drive has one of its
/// own.
pub open spec fn rooted(s: Seq<char>) -> bool {
    body(s) > prefix_len(s) || (prefix_len(s) > 0 && !has_drive(s))
}

/// Whether the root is a part of the path: in a verbatim path only where it
/// is written.
pub open spec fn shows_root(s: Seq<char>) -> bool {
    body(s) > prefix_len(s) || (prefix_len(s) > 0 && !has_drive(s) && !verbatim(s))
}

/// Whether a path names its place whatever folder it is read from.
pub open spec fn absolute(s: Seq<char>) -> bool {
    prefix_len(s) > 0 && rooted(s)
}

/// What a part of a path is.
#[derive(Clone, Copy, Debug, PartialEq, Eq, Structural)]
pub enum PartKind {
    /// The drive or the network share.
    Prefix,
    Root,
    /// A `.` at the very start, or any `.` of a verbatim path.
    Current,
    /// A `..`.
    Parent,
    Normal,
}

/// A part of a path.
#[derive(Clone, Debug, PartialEq, Eq)]
pub struct Part {
    pub kind: PartKind,
    pub text: String,
}

#[verifier::ext_equal]
pub struct PartView {
    pub kind: PartKind,
    pub text: Seq<char>,
}

impl View for Part {
    type V = PartView;

    open spec fn view(&self) -> PartView {
        PartView { kind: self.kind, text: self.text@ }
    }
}

pub open spec fn part_views(parts: Seq<Part>) -> Seq<PartView> {
    parts.map_values(|p: Part| p@)
}

/// The pieces of a text between its separators.
pub open spec fn pieces(t: Seq<char>, verbatim: bool) -> Seq<Seq<char>>
    decreases t.len(),
{
    if t.len() == 0 {
        seq![Seq::empty()]
    } else {
        let rest = pieces(t.drop_last(), verbatim);
        if splits(t.last(), verbatim) {
            rest.push(Seq::empty())
        } else {
            rest.drop_last().push(rest.last().push(t.last()))
        }
    }
}

/// The part a piece is: none for an empty piece, and none for a `.` but in a
/// verbatim path.
pub open spec fn part_of(piece: Seq<char>, verbatim: bool) -> Seq<PartView> {
    if piece.len() == 0 {
        Seq::empty()
    } else if piece == seq!['.'] {
        if verbatim {
            seq![PartView { kind: PartKind::Current, text: piece }]
        } else {
            Seq::empty()
        }
    } else if piece == seq!['.', '.'] {
        seq![PartView { kind: PartKind::Parent, text: piece }]
    } else {
        seq![PartView { kind: PartKind::Normal, text: piece }]
    }
}

pub open spec fn parts_of(list: Seq<Seq<char>>, verbatim: bool) -> Seq<PartView>
    decreases list.len(),
{
    if list.len() == 0 {
        Seq::empty()
    } else {
        parts_of(list.drop_last(), verbatim) + part_of(list.last(), verbatim)
    }
}

/// The names in the body of a path.
pub open spec fn names(t: Seq<char>, verbatim: bool) -> Seq<PartView> {
    parts_of(pieces(t, verbatim), verbatim)
}

/// Whether the body of a path starts with `.`.
pub open spec fn starts_current(t: Seq<char>) -> bool {
    t.len() > 0 && t[0] == '.' && (t.len() == 1 || is_sep(t[1]))
}

/// What stands in front of the names of a path.
pub open spec fn head(s: Seq<char>) -> Seq<PartView> {
    let prefix = if prefix_len(s) > 0 {
        seq![PartView { kind: PartKind::Prefix, text: s.take(prefix_len(s)) }]
    } else {
        Seq::empty()
    };
    let root = if shows_root(s) {
        seq![PartView { kind: PartKind::Root, text: seq!['\\'] }]
    } else {
        Seq::empty()
    };
    let current = if prefix_len(s) == 0 && !rooted(s) && starts_current(s) {
        seq![PartView { kind: PartKind::Current, text: seq!['.'] }]
    } else {
        Seq::empty()
    };
    prefix + root + current
}

/// The parts of a path: the prefix, the root, then the names. An empty name
/// is no part, nor is a `.` that does not lead, but in a verbatim path.
pub open spec fn components(s: Seq<char>) -> Seq<PartView> {
    head(s) + names(s.skip(body(s)), verbatim(s))
}

/// Whether the last character of a text is a separator or a `.` that is no
/// part. The names start at `from`, at a root or not.
pub open spec fn ends_idly(s: Seq<char>, from: int, rooted: bool, verbatim: bool) -> bool {
    splits(s.last(), verbatim) || (!verbatim && s.last() == '.' && (if s.len() - 1 == from {
        rooted
    } else {
        is_sep(s[s.len() - 2])
    }))
}

/// The text without the separators and the `.` at its end; what stands in
/// front of `from` stays, and so does a `.` that leads.
pub open spec fn tail_trimmed(s: Seq<char>, from: int, rooted: bool, verbatim: bool) -> Seq<char>
    decreases s.len(),
{
    if s.len() == 0 || s.len() <= from {
        s
    } else if ends_idly(s, from, rooted, verbatim) {
        tail_trimmed(s.drop_last(), from, rooted, verbatim)
    } else {
        s
    }
}

/// The text up to the separator before its last name.
pub open spec fn name_dropped(s: Seq<char>, from: int, verbatim: bool) -> Seq<char>
    decreases s.len(),
{
    if s.len() == 0 || s.len() <= from || splits(s.last(), verbatim) {
        s
    } else {
        name_dropped(s.drop_last(), from, verbatim)
    }
}

/// Where the parts behind the prefix start: behind a `.` that follows a drive
/// and is no part, too.
pub open spec fn lead(s: Seq<char>) -> int {
    if prefix_len(s) > 0 && !rooted(s) && starts_current(s.skip(body(s))) {
        body(s) + 1
    } else {
        body(s)
    }
}

/// The path without its last name; none for a root, a prefix or no path.
pub open spec fn parent_spec(s: Seq<char>) -> Option<Seq<char>> {
    let (from, root, by_letter) = (lead(s), rooted(s), verbatim(s));
    let trimmed = tail_trimmed(s, from, root, by_letter);
    if trimmed.len() <= from {
        None
    } else {
        Some(tail_trimmed(name_dropped(trimmed, from, by_letter), from, root, by_letter))
    }
}

/// The path without its last name, or as it is where it has none.
pub open spec fn popped(s: Seq<char>) -> Seq<char> {
    match parent_spec(s) {
        Some(t) => t,
        None => s,
    }
}

/// The parts of a verbatim path after one more part: a root goes back to the
/// prefix, a `..` takes a name away, and a `.` adds nothing.
pub open spec fn landed(parts: Seq<PartView>, part: PartView) -> Seq<PartView> {
    match part.kind {
        PartKind::Root => if parts.len() > 0 {
            parts.take(1).push(part)
        } else {
            parts.push(part)
        },
        PartKind::Current => parts,
        PartKind::Parent => if parts.len() > 0 && parts.last().kind == PartKind::Normal {
            parts.drop_last()
        } else {
            parts
        },
        _ => parts.push(part),
    }
}

/// The parts of a verbatim path after those of a relative one.
pub open spec fn landed_all(parts: Seq<PartView>, add: Seq<PartView>) -> Seq<PartView>
    decreases add.len(),
{
    if add.len() == 0 {
        parts
    } else {
        landed(landed_all(parts, add.drop_last()), add.last())
    }
}

/// Parts as one text, with a backslash between two of them unless one is the
/// root.
pub open spec fn rebuilt(parts: Seq<PartView>) -> Seq<char>
    decreases parts.len(),
{
    if parts.len() == 0 {
        Seq::empty()
    } else {
        let rest = rebuilt(parts.drop_last());
        let apart = parts.len() > 1 && parts.last().kind != PartKind::Root && parts[parts.len()
            - 2].kind != PartKind::Root;
        (if apart {
            rest.push('\\')
        } else {
            rest
        }) + parts.last().text
    }
}

/// `add` taken from the folder `s`: one with a prefix takes its place, a
/// rooted one keeps the prefix alone, and any other goes behind it, after a
/// separator where there is none. A bare drive takes none. A verbatim folder
/// is put together anew, without the `.` and the `..` of `add`.
pub open spec fn pushed(s: Seq<char>, add: Seq<char>) -> Seq<char> {
    if prefix_len(add) > 0 {
        add
    } else if verbatim(s) && add.len() > 0 {
        rebuilt(landed_all(components(s), components(add)))
    } else if rooted(add) {
        s.take(prefix_len(s)) + add
    } else if s.len() > 0 && !is_sep(s.last()) && !(has_drive(s) && s.len() == 2) {
        s.push('\\') + add
    } else {
        s + add
    }
}

fn end_of_name(s: &Vec<char>, from: usize, by_letter: bool) -> (r: usize)
    requires
        from <= s@.len(),
    ensures
        r == name_end(s@, from as int, by_letter),
        from <= r <= s@.len(),
{
    let mut at: usize = from;
    while at < s.len() && !does_split(s[at], by_letter)
        invariant
            from <= at <= s@.len(),
            name_end(s@, from as int, by_letter) == name_end(s@, at as int, by_letter),
        decreases s.len() - at,
    {
        at += 1;
    }
    at
}

fn is_verbatim(s: &Vec<char>) -> (r: bool)
    ensures
        r == verbatim(s@),
{
    s.len() >= 4 && s[0] == '\\' && s[1] == '\\' && s[2] == '?' && s[3] == '\\'
}

fn find_verbatim_prefix(s: &Vec<char>) -> (r: usize)
    requires
        verbatim(s@),
    ensures
        r == prefix_len(s@),
        4 <= r <= s@.len(),
{
    assert(!has_drive(s@));
    if s.len() >= 8 && s[4] == 'U' && s[5] == 'N' && s[6] == 'C' && separates(s[7]) {
        let server: usize = end_of_name(s, 8, true);
        if server < s.len() {
            let share: usize = end_of_name(s, server + 1, true);
            if share > server + 1 {
                return share;
            }
        }
        return server;
    }
    if s.len() >= 6 && letter(s[4]) && s[5] == ':' && (s.len() == 6 || separates(s[6])) {
        return 6;
    }
    end_of_name(s, 4, true)
}

fn find_prefix(s: &Vec<char>) -> (r: usize)
    ensures
        r == prefix_len(s@),
        r <= s@.len(),
{
    if is_drive(s) {
        return 2;
    }
    if is_verbatim(s) {
        return find_verbatim_prefix(s);
    }
    if s.len() > 2 && separates(s[0]) && separates(s[1]) {
        let server: usize = end_of_name(s, 2, false);
        if server > 2 && server < s.len() {
            let share: usize = end_of_name(s, server + 1, false);
            if share > server + 1 || (server == 3 && s[2] == '.') {
                return share;
            }
        }
    }
    0
}

fn is_drive(s: &Vec<char>) -> (r: bool)
    ensures
        r == has_drive(s@),
{
    s.len() >= 2 && letter(s[0]) && s[1] == ':'
}

fn find_body(s: &Vec<char>) -> (r: usize)
    ensures
        r == body(s@),
        r <= s@.len(),
{
    let prefix: usize = find_prefix(s);
    if prefix < s.len() && separates(s[prefix]) {
        prefix + 1
    } else {
        prefix
    }
}

fn is_rooted(s: &Vec<char>) -> (r: bool)
    ensures
        r == rooted(s@),
{
    let prefix: usize = find_prefix(s);
    find_body(s) > prefix || (prefix > 0 && !is_drive(s))
}

fn root_shown(s: &Vec<char>) -> (r: bool)
    ensures
        r == shows_root(s@),
{
    let prefix: usize = find_prefix(s);
    find_body(s) > prefix || (prefix > 0 && !is_drive(s) && !is_verbatim(s))
}

fn starts_with_dot(s: &Vec<char>, from: usize) -> (r: bool)
    requires
        from <= s@.len(),
    ensures
        r == starts_current(s@.skip(from as int)),
{
    let ghost t = s@.skip(from as int);
    if from < s.len() && s[from] == '.' {
        assert(t[0] == s@[from as int]);
        if from + 1 < s.len() {
            assert(t[1] == s@[from + 1]);
            return separates(s[from + 1]);
        }
        return true;
    }
    assert(from < s@.len() ==> t[0] == s@[from as int]);
    false
}

fn find_lead(s: &Vec<char>) -> (r: usize)
    ensures
        r == lead(s@),
        r <= s@.len(),
{
    let from: usize = find_body(s);
    if find_prefix(s) > 0 && !is_rooted(s) && starts_with_dot(s, from) {
        from + 1
    } else {
        from
    }
}

/// Whether a path names its place whatever folder it is read from.
pub fn is_absolute(path: &str) -> (r: bool)
    ensures
        r == absolute(path@),
{
    let s: Vec<char> = chars(path);
    find_prefix(&s) > 0 && is_rooted(&s)
}

fn push_part(parts: &mut Vec<Part>, kind: PartKind, text: String)
    ensures
        part_views(final(parts)@) == part_views(old(parts)@).push(
            PartView { kind, text: text@ },
        ),
{
    let ghost before = parts@;
    let part: Part = Part { kind, text };
    parts.push(part);
    assert(part_views(parts@) =~= part_views(before).push(part@));
}

/// The parts of a path.
pub fn parts_of_path(path: &str) -> (r: Vec<Part>)
    ensures
        part_views(r@) == components(path@),
{
    let s: Vec<char> = chars(path);
    let prefix: usize = find_prefix(&s);
    let from: usize = find_body(&s);
    let mut parts: Vec<Part> = Vec::new();
    if prefix > 0 {
        push_part(&mut parts, PartKind::Prefix, text_of(&s, 0, prefix));
        assert(s@.subrange(0, prefix as int) =~= s@.take(prefix as int));
    }
    let by_letter: bool = is_verbatim(&s);
    let root: bool = is_rooted(&s);
    if root_shown(&s) {
        proof {
            reveal_strlit("\\");
        }
        push_part(&mut parts, PartKind::Root, "\\".to_owned());
        assert("\\"@ =~= seq!['\\']);
    }
    let ghost t = s@.skip(from as int);
    if prefix == 0 && !root && starts_with_dot(&s, 0) {
        proof {
            reveal_strlit(".");
        }
        push_part(&mut parts, PartKind::Current, ".".to_owned());
        assert("."@ =~= seq!['.']);
    }
    assert(s@.skip(0) =~= s@);
    assert(part_views(parts@) =~= head(s@));
    let mut start: usize = from;
    let mut at: usize = from;
    let ghost mut done: Seq<Seq<char>> = Seq::empty();
    proof {
        assert(t.take(0) =~= Seq::<char>::empty());
        assert(s@.subrange(start as int, at as int) =~= Seq::<char>::empty());
        assert(pieces(t.take(0), by_letter) =~= done.push(s@.subrange(start as int, at as int)));
        assert(part_views(parts@) =~= head(s@) + parts_of(done, by_letter));
    }
    while at < s.len()
        invariant
            from <= start <= at <= s@.len(),
            s@ == path@,
            from == body(s@),
            t == s@.skip(from as int),
            by_letter == verbatim(s@),
            pieces(t.take(at - from), by_letter) == done.push(s@.subrange(start as int, at as int)),
            part_views(parts@) == head(s@) + parts_of(done, by_letter),
        decreases s.len() - at,
    {
        let ghost before = t.take(at - from);
        let ghost now = t.take(at + 1 - from);
        assert(now.drop_last() =~= before);
        assert(now.last() == s@[at as int]);
        if does_split(s[at], by_letter) {
            let ghost piece = s@.subrange(start as int, at as int);
            push_piece(&mut parts, &s, start, at, by_letter);
            proof {
                let earlier = done;
                done = done.push(piece);
                assert(done.drop_last() =~= earlier);
                assert(done.last() == piece);
                assert(part_views(parts@) =~= head(s@) + parts_of(done, by_letter));
            }
            start = at + 1;
            at += 1;
            assert(s@.subrange(start as int, at as int) =~= Seq::empty());
        } else {
            let ghost piece = s@.subrange(start as int, at as int);
            at += 1;
            proof {
                assert(pieces(before, by_letter).drop_last() =~= done);
                assert(pieces(before, by_letter).last() == piece);
                assert(piece.push(s@[at - 1]) =~= s@.subrange(start as int, at as int));
            }
        }
    }
    let ghost last = s@.subrange(start as int, at as int);
    push_piece(&mut parts, &s, start, at, by_letter);
    proof {
        assert(t.take(at - from) =~= t);
        assert(pieces(t, by_letter).drop_last() =~= done);
        assert(pieces(t, by_letter).last() == last);
        assert(part_views(parts@) =~= head(s@) + names(t, by_letter));
    }
    parts
}

fn push_piece(parts: &mut Vec<Part>, s: &Vec<char>, start: usize, end: usize, by_letter: bool)
    requires
        start <= end <= s@.len(),
    ensures
        part_views(final(parts)@) == part_views(old(parts)@) + part_of(
            s@.subrange(start as int, end as int),
            by_letter,
        ),
{
    let ghost piece = s@.subrange(start as int, end as int);
    let ghost before = part_views(parts@);
    if start == end {
        assert(before + part_of(piece, by_letter) =~= before);
        return;
    }
    if end - start == 1 && s[start] == '.' {
        assert(piece =~= seq!['.']);
        if by_letter {
            push_part(parts, PartKind::Current, text_of(s.as_slice(), start, end));
        }
    } else if end - start == 2 && s[start] == '.' && s[start + 1] == '.' {
        assert(piece =~= seq!['.', '.']);
        push_part(parts, PartKind::Parent, text_of(s.as_slice(), start, end));
    } else {
        proof {
            if piece == seq!['.'] {
                assert(piece[0] == s@[start as int]);
                assert(piece.len() == 1);
            }
            if piece == seq!['.', '.'] {
                assert(piece[0] == s@[start as int]);
                assert(piece[1] == s@[start + 1]);
                assert(piece.len() == 2);
            }
        }
        push_part(parts, PartKind::Normal, text_of(s.as_slice(), start, end));
    }
    assert(part_views(parts@) =~= before + part_of(piece, by_letter));
}

fn drops_last(s: &Vec<char>, end: usize, from: usize, root: bool, by_letter: bool) -> (r: bool)
    requires
        from < end <= s@.len(),
    ensures
        r == ends_idly(s@.take(end as int), from as int, root, by_letter),
{
    let last: char = s[end - 1];
    if does_split(last, by_letter) {
        return true;
    }
    !by_letter && last == '.' && (if end - 1 == from {
        root
    } else {
        separates(s[end - 2])
    })
}

fn trim_tail(s: &Vec<char>, len: usize, from: usize, root: bool, by_letter: bool) -> (r: usize)
    requires
        len <= s@.len(),
        from <= s@.len(),
    ensures
        r <= len,
        s@.take(r as int) == tail_trimmed(s@.take(len as int), from as int, root, by_letter),
{
    let mut end: usize = len;
    while end > from && drops_last(s, end, from, root, by_letter)
        invariant
            end <= len <= s@.len(),
            from <= s@.len(),
            tail_trimmed(s@.take(len as int), from as int, root, by_letter) == tail_trimmed(
                s@.take(end as int),
                from as int,
                root,
                by_letter,
            ),
        decreases end,
    {
        assert(s@.take(end as int).drop_last() =~= s@.take(end - 1));
        end -= 1;
    }
    end
}

/// The path without its last name; none for a root, a prefix or no path.
pub fn parent(path: &str) -> (r: Option<String>)
    ensures
        match r {
            Some(t) => parent_spec(path@) == Some(t@),
            None => parent_spec(path@) is None,
        },
{
    let s: Vec<char> = chars(path);
    let from: usize = find_lead(&s);
    let root: bool = is_rooted(&s);
    let by_letter: bool = is_verbatim(&s);
    assert(s@.take(s@.len() as int) =~= s@);
    let trimmed: usize = trim_tail(&s, s.len(), from, root, by_letter);
    if trimmed <= from {
        return None;
    }
    let mut end: usize = trimmed;
    while end > from && !does_split(s[end - 1], by_letter)
        invariant
            end <= trimmed <= s@.len(),
            from <= s@.len(),
            name_dropped(s@.take(trimmed as int), from as int, by_letter) == name_dropped(
                s@.take(end as int),
                from as int,
                by_letter,
            ),
        decreases end,
    {
        assert(s@.take(end as int).drop_last() =~= s@.take(end - 1));
        end -= 1;
    }
    let kept: usize = trim_tail(&s, end, from, root, by_letter);
    assert(s@.subrange(0, kept as int) =~= s@.take(kept as int));
    Some(text_of(&s, 0, kept))
}

fn land(parts: &mut Vec<Part>, part: &Part)
    ensures
        part_views(final(parts)@) == landed(part_views(old(parts)@), part@),
{
    let ghost before = parts@;
    assert(part_views(before).len() == before.len());
    match part.kind {
        PartKind::Root => {
            parts.truncate(1);
            proof {
                if before.len() > 0 {
                    assert(part_views(parts@) =~= part_views(before).take(1));
                } else {
                    assert(part_views(parts@) =~= part_views(before));
                }
            }
            push_part(parts, part.kind, part.text.clone());
        },
        PartKind::Current => {},
        PartKind::Parent => {
            if parts.len() > 0 {
                assert(part_views(before).last() == before.last()@);
                if parts[parts.len() - 1].kind == PartKind::Normal {
                    let _ = parts.pop();
                    assert(part_views(parts@) =~= part_views(before).drop_last());
                }
            }
        },
        _ => {
            push_part(parts, part.kind, part.text.clone());
        },
    }
}

fn rebuild(parts: &Vec<Part>) -> (r: String)
    ensures
        r@ == rebuilt(part_views(parts@)),
{
    let ghost all = part_views(parts@);
    let mut out: String = String::new();
    let mut i: usize = 0;
    assert(all.take(0) =~= Seq::empty());
    while i < parts.len()
        invariant
            0 <= i <= parts@.len(),
            all == part_views(parts@),
            out@ == rebuilt(all.take(i as int)),
        decreases parts.len() - i,
    {
        proof {
            assert(all.take(i + 1).drop_last() =~= all.take(i as int));
            assert(all.take(i + 1).last() == parts@[i as int]@);
            if i > 0 {
                assert(all.take(i + 1)[i - 1] == parts@[i - 1]@);
            }
        }
        if i > 0 && parts[i].kind != PartKind::Root && parts[i - 1].kind != PartKind::Root {
            crate::text::push(&mut out, '\\');
        }
        out.append(parts[i].text.as_str());
        i += 1;
    }
    assert(all.take(i as int) =~= all);
    out
}

/// `add` taken from the verbatim folder `path`.
fn push_by_letter(path: &str, add: &str) -> (r: String)
    ensures
        r@ == rebuilt(landed_all(components(path@), components(add@))),
{
    let mut parts: Vec<Part> = parts_of_path(path);
    let more: Vec<Part> = parts_of_path(add);
    let ghost (base, all) = (components(path@), components(add@));
    let mut i: usize = 0;
    assert(all.take(0) =~= Seq::empty());
    while i < more.len()
        invariant
            0 <= i <= more@.len(),
            all == part_views(more@),
            part_views(parts@) == landed_all(base, all.take(i as int)),
        decreases more.len() - i,
    {
        assert(all.take(i + 1).drop_last() =~= all.take(i as int));
        assert(all.take(i + 1).last() == more@[i as int]@);
        land(&mut parts, &more[i]);
        i += 1;
    }
    assert(all.take(i as int) =~= all);
    rebuild(&parts)
}

/// `add` taken from the folder `path`.
pub fn push(path: &str, add: &str) -> (r: String)
    ensures
        r@ == pushed(path@, add@),
{
    let s: Vec<char> = chars(path);
    let added: Vec<char> = chars(add);
    if find_prefix(&added) > 0 {
        return add.to_owned();
    }
    if is_verbatim(&s) && added.len() > 0 {
        return push_by_letter(path, add);
    }
    if is_rooted(&added) {
        let prefix: usize = find_prefix(&s);
        let mut out: String = text_of(&s, 0, prefix);
        assert(s@.subrange(0, prefix as int) =~= s@.take(prefix as int));
        out.append(add);
        return out;
    }
    let mut out: String = path.to_owned();
    if s.len() > 0 && !separates(s[s.len() - 1]) && !(is_drive(&s) && s.len() == 2) {
        crate::text::push(&mut out, '\\');
    }
    out.append(add);
    out
}

/// The last name of a path; none where it ends in `..`, a root or a prefix.
pub open spec fn file_name_spec(s: Seq<char>) -> Option<Seq<char>> {
    let parts = components(s);
    if parts.len() > 0 && parts.last().kind == PartKind::Normal {
        Some(parts.last().text)
    } else {
        None
    }
}

/// The last name of a path; none where it ends in `..`, a root or a prefix.
pub fn file_name(path: &str) -> (r: Option<String>)
    ensures
        match r {
            Some(name) => file_name_spec(path@) == Some(name@),
            None => file_name_spec(path@) is None,
        },
{
    let parts: Vec<Part> = parts_of_path(path);
    assert(part_views(parts@).len() == parts@.len());
    if parts.len() > 0 {
        let last: &Part = &parts[parts.len() - 1];
        assert(part_views(parts@).last() == last@);
        if last.kind == PartKind::Normal {
            return Some(last.text.clone());
        }
    }
    None
}

/// The path with another name in the place of its last one, or behind it
/// where it has none.
pub open spec fn with_file_name_spec(s: Seq<char>, name: Seq<char>) -> Seq<char> {
    match file_name_spec(s) {
        Some(_) => pushed(popped(s), name),
        None => pushed(s, name),
    }
}

/// The file beside `path` that has its full name and something behind it.
pub open spec fn beside_spec(s: Seq<char>, suffix: Seq<char>) -> Seq<char> {
    let name = match file_name_spec(s) {
        Some(name) => name,
        None => Seq::empty(),
    };
    with_file_name_spec(s, name + suffix)
}

/// The file beside `path` that has its full name and something behind it.
pub fn beside(path: &str, suffix: &str) -> (r: String)
    ensures
        r@ == beside_spec(path@, suffix@),
{
    match file_name(path) {
        Some(mut name) => {
            name.append(suffix);
            match parent(path) {
                Some(folder) => push(folder.as_str(), name.as_str()),
                None => push(path, name.as_str()),
            }
        },
        None => {
            assert(Seq::<char>::empty() + suffix@ =~= suffix@);
            push(path, suffix)
        },
    }
}

/// Where the last dot of a name stands that has something before it.
pub open spec fn last_dot(name: Seq<char>) -> Option<int>
    decreases name.len(),
{
    if name.len() <= 1 {
        None
    } else if name.last() == '.' {
        Some(name.len() - 1)
    } else {
        last_dot(name.drop_last())
    }
}

/// What stands behind the last dot of a path's name.
pub open spec fn extension_spec(s: Seq<char>) -> Option<Seq<char>> {
    match file_name_spec(s) {
        Some(name) => match last_dot(name) {
            Some(at) => Some(name.skip(at + 1)),
            None => None,
        },
        None => None,
    }
}

/// Whether a path has an extension; case does not count.
pub fn has_extension(path: &str, extension: &str) -> (r: bool)
    ensures
        r == (extension_spec(path@) matches Some(found) && ascii_lowercase(found)
            == ascii_lowercase(extension@)),
{
    let name: Vec<char> = match file_name(path) {
        Some(name) => chars(name.as_str()),
        None => {
            return false;
        },
    };
    let mut end: usize = name.len();
    assert(name@.take(end as int) =~= name@);
    while end > 1
        invariant
            end <= name@.len(),
            last_dot(name@) == last_dot(name@.take(end as int)),
            file_name_spec(path@) == Some(name@),
        decreases end,
    {
        if name[end - 1] == '.' {
            let mut found: Vec<char> = Vec::new();
            let mut i: usize = end;
            while i < name.len()
                invariant
                    end <= i <= name@.len(),
                    found@ == name@.subrange(end as int, i as int),
                decreases name.len() - i,
            {
                found.push(name[i]);
                i += 1;
                assert(found@ =~= name@.subrange(end as int, i as int));
            }
            assert(found@ =~= name@.skip(end as int));
            assert(last_dot(name@) == Some(end - 1));
            let wanted: Vec<char> = chars(extension);
            return same_ignoring_ascii_case(&found, &wanted);
        }
        assert(name@.take(end as int).drop_last() =~= name@.take(end - 1));
        end -= 1;
    }
    false
}

/// A name that stands for itself in a path: no separator, no drive in front,
/// and neither `.` nor `..`.
pub open spec fn plain(name: Seq<char>) -> bool {
    &&& name.len() > 0
    &&& name != seq!['.']
    &&& name != seq!['.', '.']
    &&& !has_drive(name)
    &&& forall|i: int| 0 <= i < name.len() ==> !is_sep(#[trigger] name[i])
}

pub open spec fn has_no_sep(t: Seq<char>, verbatim: bool) -> bool {
    forall|i: int| 0 <= i < t.len() ==> !splits(#[trigger] t[i], verbatim)
}

proof fn name_end_stops(s: Seq<char>, from: int, v: bool)
    requires
        0 <= from <= s.len(),
    ensures
        from <= name_end(s, from, v) <= s.len(),
        forall|i: int| from <= i < name_end(s, from, v) ==> !splits(#[trigger] s[i], v),
        name_end(s, from, v) < s.len() ==> splits(s[name_end(s, from, v)], v),
    decreases s.len() - from,
{
    if from < s.len() && !splits(s[from], v) {
        name_end_stops(s, from + 1, v);
    }
}

proof fn name_end_is(s: Seq<char>, from: int, end: int, v: bool)
    requires
        0 <= from <= end <= s.len(),
        forall|i: int| from <= i < end ==> !splits(#[trigger] s[i], v),
        end < s.len() ==> splits(s[end], v),
    ensures
        name_end(s, from, v) == end,
    decreases end - from,
{
    if from < end {
        assert(!splits(s[from], v));
        name_end_is(s, from + 1, end, v);
    }
}

pub proof fn body_is_inside(s: Seq<char>)
    ensures
        0 <= prefix_len(s) <= body(s) <= s.len(),
        body(s) <= prefix_len(s) + 1,
        prefix_len(s) == 0 || prefix_len(s) >= 2,
        verbatim(s) ==> prefix_len(s) >= 4,
        verbatim_share(s) ==> prefix_len(s) >= 8,
        has_drive(s) || prefix_len(s) == 0 || prefix_len(s) == s.len() || is_sep(s[prefix_len(s)]),
{
    if s.len() >= 2 {
        name_end_stops(s, 2, false);
        if name_end(s, 2, false) < s.len() {
            name_end_stops(s, name_end(s, 2, false) + 1, false);
        }
    }
    if s.len() >= 4 {
        name_end_stops(s, 4, true);
    }
    if s.len() >= 8 {
        name_end_stops(s, 8, true);
        if name_end(s, 8, true) < s.len() {
            name_end_stops(s, name_end(s, 8, true) + 1, true);
        }
    }
}

/// Whether a verbatim path starts with a server and no share: a name behind
/// it would be taken for the share.
pub open spec fn lacks_share(s: Seq<char>) -> bool {
    verbatim_share(s) && prefix_len(s) == name_end(s, 8, true)
}

/// A prefix is read in the same way when something else stands behind it: a
/// separator, or nothing.
proof fn prefix_is_kept(s: Seq<char>, r: Seq<char>)
    requires
        ({
            let p = prefix_len(s);
            &&& 0 < p <= r.len()
            &&& forall|i: int| 0 <= i < p ==> #[trigger] r[i] == s[i]
            &&& has_drive(s) || r.len() == p || (s.len() > p && (r[p] == s[p] || r[p] == '\\'))
                || (s.len() == p && r[p] == '\\' && !verbatim(s) && !is_sep(s[p - 1]))
            &&& lacks_share(s) ==> r.len() <= p + 1 || r[p + 1] == '\\'
        }),
    ensures
        prefix_len(r) == prefix_len(s),
        has_drive(r) == has_drive(s),
        verbatim(r) == verbatim(s),
        lacks_share(r) == lacks_share(s),
{
    let p = prefix_len(s);
    body_is_inside(s);
    assert(r[0] == s[0] && r[1] == s[1]);
    if !has_drive(s) {
        if verbatim(s) {
            assert(r[2] == s[2] && r[3] == s[3]);
            verbatim_prefix_is_kept(s, r);
        } else {
            let server = name_end(s, 2, false);
            name_end_stops(s, 2, false);
            name_end_stops(s, server + 1, false);
            assert(is_sep(s[server]));
            assert(server < p);
            assert(r[server] == s[server]);
            assert(r[2] == s[2]);
            assert forall|i: int| 2 <= i < server implies !splits(#[trigger] r[i], false) by {
                assert(r[i] == s[i]);
            }
            name_end_is(r, 2, server, false);
            assert forall|i: int| server + 1 <= i < p implies !splits(#[trigger] r[i], false) by {
                assert(r[i] == s[i]);
            }
            name_end_is(r, server + 1, p, false);
            assert(!verbatim(r)) by {
                if verbatim(r) {
                    assert(server == 3) by {
                        name_end_is(r, 2, 3, false);
                    }
                    assert(r[3] == s[3]);
                }
            }
        }
    }
}

proof fn verbatim_prefix_is_kept(s: Seq<char>, r: Seq<char>)
    requires
        verbatim(s),
        verbatim(r),
        ({
            let p = prefix_len(s);
            &&& 0 < p <= r.len()
            &&& forall|i: int| 0 <= i < p ==> #[trigger] r[i] == s[i]
            &&& r.len() == p || (s.len() > p && (r[p] == s[p] || r[p] == '\\'))
            &&& lacks_share(s) ==> r.len() <= p + 1 || r[p + 1] == '\\'
        }),
    ensures
        prefix_len(r) == prefix_len(s),
        lacks_share(r) == lacks_share(s),
{
    let p = prefix_len(s);
    body_is_inside(s);
    name_end_stops(s, 4, true);
    assert(!has_drive(s) && !has_drive(r));
    if verbatim_share(s) {
        assert(r[4] == s[4] && r[5] == s[5] && r[6] == s[6] && r[7] == s[7]);
        let server = name_end(s, 8, true);
        name_end_stops(s, 8, true);
        assert forall|i: int| 8 <= i < server implies !splits(#[trigger] r[i], true) by {
            assert(r[i] == s[i]);
        }
        if p == server {
            name_end_is(r, 8, server, true);
            if r.len() > p + 1 {
                name_end_is(r, p + 1, p + 1, true);
            } else if r.len() == p + 1 {
                name_end_is(r, p + 1, p + 1, true);
            }
        } else {
            name_end_stops(s, server + 1, true);
            assert(r[server] == s[server]);
            name_end_is(r, 8, server, true);
            assert forall|i: int| server + 1 <= i < p implies !splits(#[trigger] r[i], true) by {
                assert(r[i] == s[i]);
            }
            name_end_is(r, server + 1, p, true);
        }
    } else if verbatim_drive(s) {
        assert(r[4] == s[4] && r[5] == s[5]);
        assert(!verbatim_share(r));
        assert(verbatim_drive(r));
    } else {
        assert forall|i: int| 4 <= i < p implies !splits(#[trigger] r[i], true) by {
            assert(r[i] == s[i]);
        }
        name_end_is(r, 4, p, true);
        if verbatim_share(r) {
            if p > 7 {
                assert(r[4] == s[4] && r[5] == s[5] && r[6] == s[6] && r[7] == s[7]);
            } else if p == 7 {
                assert(r[4] == s[4] && r[5] == s[5] && r[6] == s[6]);
            }
            assert(false);
        }
        if verbatim_drive(r) {
            if p > 6 {
                assert(r[4] == s[4] && r[5] == s[5] && r[6] == s[6]);
            } else if p == 6 {
                assert(r[4] == s[4] && r[5] == s[5]);
            }
            assert(false);
        }
    }
}

/// What stands in front of the names does not depend on the names.
proof fn head_is_kept(s: Seq<char>, len: int)
    requires
        body(s) <= len <= s.len(),
    ensures
        prefix_len(s.take(len)) == prefix_len(s),
        body(s.take(len)) == body(s),
        rooted(s.take(len)) == rooted(s),
        shows_root(s.take(len)) == shows_root(s),
        has_drive(s.take(len)) == has_drive(s),
        verbatim(s.take(len)) == verbatim(s),
        lacks_share(s.take(len)) == lacks_share(s),
        0 <= prefix_len(s) <= body(s),
        s.take(len).take(prefix_len(s)) == s.take(prefix_len(s)),
{
    let t = s.take(len);
    let p = prefix_len(s);
    body_is_inside(s);
    assert(t.take(p) =~= s.take(p));
    if p > 0 {
        if lacks_share(s) && t.len() > p + 1 {
            name_end_stops(s, 8, true);
            name_end_stops(s, p + 1, true);
            assert(t[p + 1] == s[p + 1]);
        }
        prefix_is_kept(s, t);
    } else {
        assert(!has_drive(t) && !verbatim(t));
        if has_share(t) {
            let server = name_end(t, 2, false);
            name_end_stops(t, 2, false);
            name_end_stops(t, server + 1, false);
            assert forall|i: int| 2 <= i < server implies !splits(#[trigger] s[i], false) by {
                assert(t[i] == s[i]);
            }
            assert(is_sep(s[server]));
            name_end_is(s, 2, server, false);
            name_end_stops(s, server + 1, false);
            if server + 1 < name_end(t, server + 1, false) {
                assert(!splits(t[server + 1], false));
                assert(!splits(s[server + 1], false));
                assert(name_end(s, server + 1, false) > server + 1);
            }
            assert(has_share(s));
            assert(false);
        }
    }
}

proof fn pieces_joined(x: Seq<char>, c: char, y: Seq<char>, v: bool)
    requires
        splits(c, v),
    ensures
        pieces(x.push(c) + y, v) == pieces(x, v) + pieces(y, v),
        pieces(y, v).len() > 0,
    decreases y.len(),
{
    let whole = x.push(c) + y;
    if y.len() == 0 {
        assert(whole =~= x.push(c));
        assert(whole.drop_last() =~= x);
        assert(pieces(whole, v) =~= pieces(x, v) + pieces(y, v));
    } else {
        pieces_joined(x, c, y.drop_last(), v);
        assert(whole.drop_last() =~= x.push(c) + y.drop_last());
        assert(whole.last() == y.last());
        let rest = pieces(y.drop_last(), v);
        assert((pieces(x, v) + rest).drop_last() =~= pieces(x, v) + rest.drop_last());
        assert((pieces(x, v) + rest).last() == rest.last());
        assert(pieces(whole, v) =~= pieces(x, v) + pieces(y, v));
    }
}

proof fn pieces_of_a_name(y: Seq<char>, v: bool)
    requires
        has_no_sep(y, v),
    ensures
        pieces(y, v) == seq![y],
    decreases y.len(),
{
    if y.len() > 0 {
        let rest = y.drop_last();
        assert forall|i: int| 0 <= i < rest.len() implies !splits(#[trigger] rest[i], v) by {
            assert(rest[i] == y[i]);
        }
        pieces_of_a_name(rest, v);
        assert(!splits(y[y.len() - 1], v));
        assert(pieces(rest, v).drop_last() =~= Seq::empty());
        assert(rest.push(y.last()) =~= y);
        assert(pieces(y, v) =~= seq![y]);
    } else {
        assert(y =~= Seq::empty());
        assert(pieces(y, v) =~= seq![y]);
    }
}

proof fn parts_of_joined(a: Seq<Seq<char>>, b: Seq<Seq<char>>, v: bool)
    ensures
        parts_of(a + b, v) == parts_of(a, v) + parts_of(b, v),
    decreases b.len(),
{
    if b.len() == 0 {
        assert(a + b =~= a);
        assert(parts_of(a + b, v) =~= parts_of(a, v) + parts_of(b, v));
    } else {
        parts_of_joined(a, b.drop_last(), v);
        assert((a + b).drop_last() =~= a + b.drop_last());
        assert((a + b).last() == b.last());
        assert(parts_of(a + b, v) =~= parts_of(a, v) + parts_of(b, v));
    }
}

/// The names on the two sides of a separator, one after the other.
pub proof fn names_joined(x: Seq<char>, c: char, y: Seq<char>, v: bool)
    requires
        splits(c, v),
    ensures
        names(x.push(c) + y, v) == names(x, v) + names(y, v),
{
    pieces_joined(x, c, y, v);
    parts_of_joined(pieces(x, v), pieces(y, v), v);
}

pub proof fn names_of_a_name(y: Seq<char>, v: bool)
    requires
        has_no_sep(y, v),
    ensures
        names(y, v) == part_of(y, v),
{
    pieces_of_a_name(y, v);
    assert(seq![y].drop_last() =~= Seq::<Seq<char>>::empty());
    assert(parts_of(Seq::<Seq<char>>::empty(), v) =~= Seq::<PartView>::empty());
    assert(seq![y].last() == y);
    assert(parts_of(seq![y], v) =~= part_of(y, v));
}

proof fn names_of_nothing(v: bool)
    ensures
        names(Seq::<char>::empty(), v) == Seq::<PartView>::empty(),
{
    names_of_a_name(Seq::<char>::empty(), v);
}

/// A separator at the end of the names adds none.
proof fn names_before_a_sep(x: Seq<char>, c: char, v: bool)
    requires
        splits(c, v),
    ensures
        names(x.push(c), v) == names(x, v),
{
    names_joined(x, c, Seq::<char>::empty(), v);
    names_of_nothing(v);
    assert(x.push(c) + Seq::<char>::empty() =~= x.push(c));
    assert(names(x, v) + Seq::<PartView>::empty() =~= names(x, v));
}

proof fn tail_trimmed_keeps_names(s: Seq<char>, from: int, root: bool, v: bool)
    requires
        0 <= from <= s.len(),
    ensures
        ({
            let t = tail_trimmed(s, from, root, v);
            &&& from <= t.len() <= s.len()
            &&& t == s.take(t.len() as int)
            &&& names(t.skip(from), v) == names(s.skip(from), v)
            &&& !root && !v ==> starts_current(t.skip(from)) == starts_current(s.skip(from))
            &&& t.len() > from ==> !ends_idly(t, from, root, v)
        }),
    decreases s.len(),
{
    if s.len() == 0 || s.len() <= from {
        assert(s.take(s.len() as int) =~= s);
    } else {
        let shorter = s.drop_last();
        let b = s.skip(from);
        let rest = shorter.skip(from);
        assert(b =~= rest.push(s.last()));
        if splits(s.last(), v) {
            tail_trimmed_keeps_names(shorter, from, root, v);
            names_before_a_sep(rest, s.last(), v);
            let t = tail_trimmed(s, from, root, v);
            assert(shorter.take(t.len() as int) =~= s.take(t.len() as int));
        } else if ends_idly(s, from, root, v) {
            tail_trimmed_keeps_names(shorter, from, root, v);
            let t = tail_trimmed(s, from, root, v);
            assert(shorter.take(t.len() as int) =~= s.take(t.len() as int));
            let dot = seq!['.'];
            names_of_a_name(dot, v);
            if s.len() - 1 == from {
                assert(rest =~= Seq::empty());
                assert(b =~= dot);
                names_of_nothing(v);
            } else {
                let front = rest.drop_last();
                let c = s[s.len() - 2];
                assert(rest.last() == c);
                assert(rest =~= front.push(c));
                assert(b =~= front.push(c) + dot);
                names_joined(front, c, dot, v);
                names_before_a_sep(front, c, v);
                assert(names(front, v) + Seq::<PartView>::empty() =~= names(front, v));
                assert(b[0] == rest[0]);
            }
        } else {
            assert(s.take(s.len() as int) =~= s);
        }
    }
}

proof fn name_dropped_splits(s: Seq<char>, from: int, v: bool)
    requires
        0 <= from <= s.len(),
    ensures
        ({
            let d = name_dropped(s, from, v);
            &&& from <= d.len() <= s.len()
            &&& d == s.take(d.len() as int)
            &&& d.len() == from || splits(d.last(), v)
            &&& has_no_sep(s.skip(d.len() as int), v)
        }),
    decreases s.len(),
{
    if s.len() == 0 || s.len() <= from || splits(s.last(), v) {
        assert(s.take(s.len() as int) =~= s);
    } else {
        name_dropped_splits(s.drop_last(), from, v);
        let d = name_dropped(s, from, v);
        let y = s.drop_last().skip(d.len() as int);
        assert(s.drop_last().take(d.len() as int) =~= s.take(d.len() as int));
        assert(s.skip(d.len() as int) =~= y.push(s.last()));
    }
}

/// The name that is dropped is the last of the names, and what is left starts
/// as the whole did.
proof fn name_dropped_drops_a_name(t: Seq<char>, from: int, v: bool)
    requires
        0 <= from < t.len(),
        !splits(t.last(), v),
    ensures
        ({
            let d = name_dropped(t, from, v);
            let y = t.skip(d.len() as int);
            &&& y.len() > 0 && has_no_sep(y, v)
            &&& names(t.skip(from), v) == names(d.skip(from), v) + part_of(y, v)
            &&& y != seq!['.'] && !v ==> starts_current(t.skip(from)) == starts_current(
                d.skip(from),
            )
            &&& y == seq!['.'] && d.len() == from ==> starts_current(t.skip(from))
            &&& y == seq!['.'] && d.len() > from ==> is_sep(t[t.len() - 2])
            &&& y == seq!['.'] ==> t.last() == '.'
        }),
{
    name_dropped_splits(t, from, v);
    let d = name_dropped(t, from, v);
    let y = t.skip(d.len() as int);
    names_of_nothing(v);
    if d.len() == t.len() {
        assert(d =~= t);
    }
    assert(y.last() == t.last());
    names_of_a_name(y, v);
    let b = t.skip(from);
    let e = d.skip(from);
    if d.len() == from {
        assert(e =~= Seq::empty());
        assert(b =~= y);
        assert(names(e, v) + part_of(y, v) =~= part_of(y, v));
        if y != seq!['.'] && !v && starts_current(b) {
            if y.len() > 1 {
                assert(!splits(y[1], v));
            }
            assert(y =~= seq!['.']);
        }
    } else {
        let x = e.drop_last();
        let c = d.last();
        assert(e =~= x.push(c));
        assert(b =~= x.push(c) + y);
        names_joined(x, c, y, v);
        names_before_a_sep(x, c, v);
        assert(b[0] == e[0]);
        if e.len() >= 2 {
            assert(b[1] == e[1]);
        } else {
            assert(e[0] == c);
        }
        if y == seq!['.'] {
            assert(t[t.len() - 2] == c);
        }
    }
}

/// The parent of a path has the parts of the path without the last. A path
/// with no parent has no part behind its prefix and its root.
pub proof fn parent_drops_the_last_part(s: Seq<char>)
    ensures
        match parent_spec(s) {
            Some(t) => components(t) == components(s).drop_last() && components(s).len() > 0
                && components(s).last().kind != PartKind::Prefix && components(s).last().kind
                != PartKind::Root,
            None => forall|i: int|
                0 <= i < components(s).len() ==> (#[trigger] components(s)[i]).kind
                    == PartKind::Prefix || components(s)[i].kind == PartKind::Root,
        },
{
    body_is_inside(s);
    lead_is_inside(s);
    let from = lead(s);
    let root = rooted(s);
    let v = verbatim(s);
    names_behind_the_lead(s);
    tail_trimmed_keeps_names(s, from, root, v);
    let t = tail_trimmed(s, from, root, v);
    if t.len() <= from {
        names_of_nothing(v);
        assert(t.skip(from) =~= Seq::empty());
        if prefix_len(s) == 0 {
            assert(s.skip(0) =~= s || from > 0);
            if !root {
                assert(s.skip(from) =~= s);
                assert(t.skip(from) =~= t);
            }
        }
        assert(components(s) =~= head(s));
    } else {
        name_dropped_splits(t, from, v);
        name_dropped_drops_a_name(t, from, v);
        let d = name_dropped(t, from, v);
        tail_trimmed_keeps_names(d, from, root, v);
        let r = tail_trimmed(d, from, root, v);
        assert(r =~= s.take(r.len() as int));
        head_is_kept(s, r.len() as int);
        lead_is_kept(s, r.len() as int);
        names_behind_the_lead(r);
        let y = t.skip(d.len() as int);
        if y == seq!['.'] && !v {
            assert(d.len() == from && !root);
            assert(d.skip(from) =~= Seq::empty());
            names_of_nothing(v);
            if from > body(s) {
                assert(t[from] == s[from]);
                assert(y[0] == t[from]);
                assert(false);
            }
            assert(prefix_len(s) == 0);
        }
        if prefix_len(s) == 0 && !root {
            assert(s.skip(0) =~= s && r.skip(0) =~= r);
        }
        one_part_fewer(s, r, y);
    }
}

proof fn lead_is_inside(s: Seq<char>)
    ensures
        body(s) <= lead(s) <= s.len(),
        lead(s) > body(s) ==> s[body(s)] == '.' && (lead(s) == s.len() || is_sep(s[lead(s)])),
        lead(s) > body(s) ==> !verbatim(s),
{
    body_is_inside(s);
    let b = s.skip(body(s));
    if lead(s) > body(s) {
        assert(b[0] == s[body(s)]);
        if b.len() > 1 {
            assert(b[1] == s[body(s) + 1]);
        }
    }
}

proof fn lead_is_kept(s: Seq<char>, len: int)
    requires
        lead(s) <= len <= s.len(),
    ensures
        lead(s) > body(s) ==> lead(s.take(len)) == lead(s),
{
    lead_is_inside(s);
    body_is_inside(s);
    head_is_kept(s, len);
    if lead(s) > body(s) {
        let t = s.take(len);
        let b = t.skip(body(t));
        assert(b[0] == s[body(s)]);
        if b.len() > 1 {
            assert(b[1] == s[body(s) + 1]);
        }
    }
}

/// A `.` behind a drive is no name.
proof fn names_behind_the_lead(s: Seq<char>)
    ensures
        names(s.skip(lead(s)), verbatim(s)) == names(s.skip(body(s)), verbatim(s)),
{
    lead_is_inside(s);
    body_is_inside(s);
    if lead(s) > body(s) {
        let b = s.skip(body(s));
        let c = s.skip(lead(s));
        let dot = seq!['.'];
        names_of_a_name(dot, false);
        names_of_nothing(false);
        if b.len() == 1 {
            assert(b =~= dot);
            assert(c =~= Seq::empty());
        } else {
            let sep = b[1];
            let rest = s.skip(lead(s) + 1);
            assert(b =~= dot.push(sep) + rest);
            assert(c =~= Seq::<char>::empty().push(sep) + rest);
            names_joined(dot, sep, rest, false);
            names_joined(Seq::<char>::empty(), sep, rest, false);
        }
    }
}

proof fn one_part_fewer(s: Seq<char>, r: Seq<char>, y: Seq<char>)
    requires
        prefix_len(r) == prefix_len(s),
        body(r) == body(s),
        rooted(r) == rooted(s),
        shows_root(r) == shows_root(s),
        verbatim(r) == verbatim(s),
        verbatim(s) ==> rooted(s),
        r.take(prefix_len(s)) == s.take(prefix_len(s)),
        y.len() > 0,
        names(s.skip(body(s)), verbatim(s)) == names(r.skip(body(s)), verbatim(s)) + part_of(
            y,
            verbatim(s),
        ),
        y == seq!['.'] && !verbatim(s) ==> {
            &&& prefix_len(s) == 0 && !rooted(s) && starts_current(s)
            &&& !starts_current(r)
            &&& names(r.skip(body(s)), verbatim(s)).len() == 0
        },
        y != seq!['.'] && prefix_len(s) == 0 && !rooted(s) ==> starts_current(r)
            == starts_current(s),
    ensures
        components(r) == components(s).drop_last(),
        components(s).len() > 0,
        components(s).last().kind != PartKind::Prefix,
        components(s).last().kind != PartKind::Root,
{
    if y == seq!['.'] && !verbatim(s) {
        let current = seq![PartView { kind: PartKind::Current, text: seq!['.'] }];
        assert(head(s) =~= head(r) + current);
        assert(components(s) =~= head(r) + current);
        assert(components(r) =~= head(r));
        assert(components(r) =~= components(s).drop_last());
    } else {
        assert(head(r) =~= head(s));
        assert(components(s) =~= components(r) + part_of(y, verbatim(s)));
        assert(components(r) =~= components(s).drop_last());
    }
}

/// Whether a name can be put behind the prefix of a path without becoming a
/// part of it: a verbatim server without a share and a device without a name
/// would take it in.
pub open spec fn firm(s: Seq<char>) -> bool {
    &&& !lacks_share(s)
    &&& body(s) > prefix_len(s) || (prefix_len(s) > 0 && !is_sep(s[prefix_len(s) - 1]))
}

/// The parent of a path starts where the path starts.
pub proof fn parent_keeps_the_head(s: Seq<char>)
    ensures
        parent_spec(s) matches Some(t) ==> {
            &&& absolute(t) == absolute(s)
            &&& shows_root(t) == shows_root(s)
            &&& firm(t) == firm(s)
        },
{
    body_is_inside(s);
    lead_is_inside(s);
    let from = lead(s);
    let root = rooted(s);
    let v = verbatim(s);
    tail_trimmed_keeps_names(s, from, root, v);
    let t = tail_trimmed(s, from, root, v);
    if t.len() > from {
        name_dropped_splits(t, from, v);
        let d = name_dropped(t, from, v);
        tail_trimmed_keeps_names(d, from, root, v);
        let r = tail_trimmed(d, from, root, v);
        assert(r =~= s.take(r.len() as int));
        head_is_kept(s, r.len() as int);
    }
}

/// Names stand for themselves: each is read as the part it is, and none is a
/// prefix or a root.
pub proof fn names_are_names(t: Seq<char>, v: bool)
    ensures
        forall|i: int|
            0 <= i < names(t, v).len() ==> {
                let part = #[trigger] names(t, v)[i];
                &&& has_no_sep(part.text, v)
                &&& part_of(part.text, v) == seq![part]
                &&& part.kind != PartKind::Prefix && part.kind != PartKind::Root
                &&& part.kind == PartKind::Current ==> v
            },
{
    pieces_have_no_sep(t, v);
    parts_are_names(pieces(t, v), v);
}

proof fn pieces_have_no_sep(t: Seq<char>, v: bool)
    ensures
        pieces(t, v).len() > 0,
        forall|i: int| 0 <= i < pieces(t, v).len() ==> has_no_sep(#[trigger] pieces(t, v)[i], v),
    decreases t.len(),
{
    if t.len() > 0 {
        pieces_have_no_sep(t.drop_last(), v);
        let rest = pieces(t.drop_last(), v);
        assert(has_no_sep(rest[rest.len() - 1], v));
    }
}

proof fn parts_are_names(list: Seq<Seq<char>>, v: bool)
    requires
        forall|i: int| 0 <= i < list.len() ==> has_no_sep(#[trigger] list[i], v),
    ensures
        forall|i: int|
            0 <= i < parts_of(list, v).len() ==> {
                let part = #[trigger] parts_of(list, v)[i];
                &&& has_no_sep(part.text, v)
                &&& part_of(part.text, v) == seq![part]
                &&& part.kind != PartKind::Prefix && part.kind != PartKind::Root
                &&& part.kind == PartKind::Current ==> v
            },
    decreases list.len(),
{
    if list.len() > 0 {
        let rest = list.drop_last();
        assert forall|i: int| 0 <= i < rest.len() implies has_no_sep(#[trigger] rest[i], v) by {
            assert(rest[i] == list[i]);
        }
        parts_are_names(rest, v);
        assert(has_no_sep(list[list.len() - 1], v));
        let last = part_of(list.last(), v);
        assert forall|i: int| 0 <= i < last.len() implies {
            let part = #[trigger] last[i];
            &&& has_no_sep(part.text, v)
            &&& part_of(part.text, v) == seq![part]
            &&& part.kind != PartKind::Prefix && part.kind != PartKind::Root
            &&& part.kind == PartKind::Current ==> v
        } by {
            assert(last[i].text == list.last());
            assert(last =~= seq![last[i]]);
        }
        assert forall|i: int| 0 <= i < parts_of(list, v).len() implies {
            let part = #[trigger] parts_of(list, v)[i];
            &&& has_no_sep(part.text, v)
            &&& part_of(part.text, v) == seq![part]
            &&& part.kind != PartKind::Prefix && part.kind != PartKind::Root
            &&& part.kind == PartKind::Current ==> v
        } by {
            let n = parts_of(rest, v).len();
            if i < n {
                assert(parts_of(list, v)[i] == parts_of(rest, v)[i]);
            } else {
                assert(parts_of(list, v)[i] == last[i - n]);
            }
        }
    }
}

/// A verbatim prefix, its root and names put together are the prefix, a
/// backslash and a text that reads as the names.
proof fn rebuilt_reads_back(prefix: PartView, list: Seq<PartView>) -> (text: Seq<char>)
    requires
        prefix.kind == PartKind::Prefix,
        forall|i: int|
            0 <= i < list.len() ==> {
                let part = #[trigger] list[i];
                &&& has_no_sep(part.text, true)
                &&& part_of(part.text, true) == seq![part]
                &&& part.kind != PartKind::Root
            },
    ensures
        rebuilt(seq![prefix, PartView { kind: PartKind::Root, text: seq!['\\'] }] + list)
            == prefix.text.push('\\') + text,
        names(text, true) == list,
        list.len() > 0 ==> text.len() > 0,
    decreases list.len(),
{
    let root = PartView { kind: PartKind::Root, text: seq!['\\'] };
    let all = seq![prefix, root] + list;
    if list.len() == 0 {
        assert(all =~= seq![prefix, root]);
        assert(all.drop_last() =~= seq![prefix]);
        assert(seq![prefix].drop_last() =~= Seq::empty());
        assert(rebuilt(Seq::<PartView>::empty()) =~= Seq::<char>::empty());
        assert(rebuilt(seq![prefix]) =~= prefix.text);
        names_of_nothing(true);
        let text = Seq::<char>::empty();
        assert(rebuilt(all) =~= prefix.text.push('\\') + text);
        assert(list =~= Seq::empty());
        text
    } else {
        let rest = list.drop_last();
        let last = list[list.len() - 1];
        assert forall|i: int| 0 <= i < rest.len() implies {
            let part = #[trigger] rest[i];
            &&& has_no_sep(part.text, true)
            &&& part_of(part.text, true) == seq![part]
            &&& part.kind != PartKind::Root
        } by {
            assert(rest[i] == list[i]);
        }
        let before = rebuilt_reads_back(prefix, rest);
        assert(all.drop_last() =~= seq![prefix, root] + rest);
        assert(all.last() == last);
        names_of_a_name(last.text, true);
        assert(last.text.len() > 0) by {
            if last.text.len() == 0 {
                assert(part_of(last.text, true).len() == 0);
                assert(seq![last].len() == 1);
            }
        }
        if rest.len() == 0 {
            assert(all[all.len() - 2] == root);
            assert(names(before, true).len() == 0);
            let text = last.text;
            assert(before =~= Seq::empty()) by {
                assert(rebuilt(seq![prefix, root] + rest) =~= prefix.text.push('\\')) by {
                    assert(seq![prefix, root] + rest =~= seq![prefix, root]);
                    assert(seq![prefix, root].drop_last() =~= seq![prefix]);
                    assert(seq![prefix].drop_last() =~= Seq::empty());
                    assert(rebuilt(Seq::<PartView>::empty()) =~= Seq::<char>::empty());
                    assert(rebuilt(seq![prefix]) =~= prefix.text);
                }
                assert((prefix.text.push('\\') + before).len() == prefix.text.len() + 1
                    + before.len());
            }
            assert(rebuilt(all) =~= prefix.text.push('\\') + text);
            assert(seq![last] =~= list);
            text
        } else {
            assert(all[all.len() - 2] == rest[rest.len() - 1]);
            let text = before.push('\\') + last.text;
            assert(rebuilt(all) =~= prefix.text.push('\\') + text);
            names_joined(before, '\\', last.text, true);
            assert(rest + seq![last] =~= list);
            text
        }
    }
}

/// A name behind a verbatim path is its last part.
proof fn pushing_onto_a_verbatim_path(s: Seq<char>, name: Seq<char>)
    requires
        verbatim(s),
        shows_root(s),
        firm(s),
        plain(name),
    ensures
        components(pushed(s, name)) == components(s).push(
            (PartView { kind: PartKind::Normal, text: name }),
        ),
        absolute(pushed(s, name)),
        shows_root(pushed(s, name)),
        firm(pushed(s, name)),
{
    let part = PartView { kind: PartKind::Normal, text: name };
    let p = prefix_len(s);
    body_is_inside(s);
    a_plain_name_is_one_part(name);
    let list = names(s.skip(body(s)), true);
    names_are_names(s.skip(body(s)), true);
    let prefix = PartView { kind: PartKind::Prefix, text: s.take(p) };
    let root = PartView { kind: PartKind::Root, text: seq!['\\'] };
    assert(head(s) =~= seq![prefix, root]);
    let more = list.push(part);
    assert(has_no_sep(name, true));
    assert forall|i: int| 0 <= i < more.len() implies {
        let part = #[trigger] more[i];
        &&& has_no_sep(part.text, true)
        &&& part_of(part.text, true) == seq![part]
        &&& part.kind != PartKind::Root
    } by {
        if i < list.len() {
            assert(more[i] == list[i]);
        }
    }
    let add = components(name);
    assert(add =~= seq![part]);
    assert(add.drop_last() =~= Seq::empty());
    assert(landed_all(components(s), add.drop_last()) == components(s));
    assert(landed_all(components(s), add) =~= seq![prefix, root] + more);
    let text = rebuilt_reads_back(prefix, more);
    let r = pushed(s, name);
    assert(r == s.take(p).push('\\') + text);
    assert forall|i: int| 0 <= i < p implies #[trigger] r[i] == s[i] by {
        assert(r[i] == s.take(p)[i]);
    }
    assert(r[p] == '\\');
    prefix_is_kept(s, r);
    assert(r.skip(p + 1) =~= text);
    assert(r.take(p) =~= s.take(p));
    assert(head(r) =~= head(s));
    assert(components(r) =~= components(s).push(part));
}

proof fn a_plain_name_is_one_part(name: Seq<char>)
    requires
        plain(name),
    ensures
        prefix_len(name) == 0,
        !rooted(name),
        components(name) == seq![PartView { kind: PartKind::Normal, text: name }],
        has_no_sep(name, false),
{
    assert(!is_sep(name[0]));
    assert(prefix_len(name) == 0);
    assert(body(name) == 0);
    assert(name.skip(0) =~= name);
    names_of_a_name(name, false);
    assert(!starts_current(name)) by {
        if starts_current(name) {
            if name.len() > 1 {
                assert(!is_sep(name[1]));
            } else {
                assert(name =~= seq!['.']);
            }
        }
    }
    assert(components(name) =~= seq![PartView { kind: PartKind::Normal, text: name }]);
}

/// A plain name pushed onto an absolute path is its last part.
pub proof fn pushing_a_plain_name_adds_a_part(s: Seq<char>, name: Seq<char>)
    requires
        absolute(s),
        shows_root(s),
        firm(s),
        plain(name),
    ensures
        components(pushed(s, name)) == components(s).push(
            (PartView { kind: PartKind::Normal, text: name }),
        ),
        absolute(pushed(s, name)),
        shows_root(pushed(s, name)),
        firm(pushed(s, name)),
{
    if verbatim(s) {
        pushing_onto_a_verbatim_path(s, name);
    } else {
        a_plain_name_is_one_part(name);
        names_of_a_name(name, false);
        names_of_nothing(false);
        body_is_inside(s);
        let r = pushed(s, name);
        let from = body(s);
        let p = prefix_len(s);
        let ends = is_sep(s.last());
        assert(!(has_drive(s) && s.len() == 2));
        assert(r == if ends {
            s + name
        } else {
            s.push('\\') + name
        });
        assert forall|i: int| 0 <= i < s.len() implies r[i] == #[trigger] s[i] by {}
        if s.len() == p {
            assert(s.last() == s[p - 1]);
            assert(r[p] == '\\');
        } else {
            assert(r[p] == s[p]);
        }
        prefix_is_kept(s, r);
        if from == s.len() {
            assert(r.skip(body(r)) =~= name);
            assert(s.skip(from) =~= Seq::empty());
        } else if ends {
            assert(body(r) == from);
            let x = s.skip(from).drop_last();
            let c = s.last();
            assert(s.skip(from) =~= x.push(c));
            assert(r.skip(from) =~= x.push(c) + name);
            names_joined(x, c, name, false);
            names_before_a_sep(x, c, false);
        } else {
            assert(body(r) == from);
            let x = s.skip(from);
            assert(r.skip(from) =~= x.push('\\') + name);
            names_joined(x, '\\', name, false);
        }
        assert(names(r.skip(body(r)), false) =~= names(s.skip(from), false) + part_of(name, false));
        assert(r.take(p) =~= s.take(p));
        assert(head(r) =~= head(s));
        assert(components(r) =~= components(s).push(
            PartView { kind: PartKind::Normal, text: name },
        ));
    }
}

/// A relative path written from names reads back as those names.
pub proof fn written_names_read_back(parts: Seq<Seq<char>>, text: Seq<char>)
    requires
        parts.len() > 0,
        forall|i: int|
            0 <= i < parts.len() ==> plain(#[trigger] parts[i]) || parts[i] == seq!['.', '.'],
        text == crate::text::joined(parts, seq!['/']),
    ensures
        !absolute(text),
        components(text) == Seq::new(
            parts.len(),
            |i: int| part_of(parts[i], false)[0],
        ),
{
    joined_names(parts);
    assert(parts[0] == parts[0]);
    assert(!is_sep(text[0])) by {
        assert(!is_sep(parts[0][0]));
    }
    assert(prefix_len(text) == 0) by {
        if has_drive(text) {
            assert(text[0] == parts[0][0]);
            if parts[0].len() >= 2 {
                assert(text[1] == parts[0][1]);
                assert(has_drive(parts[0]));
            }
        }
    }
    assert(body(text) == 0);
    assert(text.skip(0) =~= text);
    assert(!starts_current(text)) by {
        if starts_current(text) {
            if parts[0].len() >= 2 {
                assert(text[1] == parts[0][1]);
                assert(!is_sep(parts[0][1]));
            } else {
                assert(parts[0] =~= seq!['.']);
            }
        }
    }
    assert(components(text) =~= names(text, false));
}

proof fn joined_names(parts: Seq<Seq<char>>)
    requires
        parts.len() > 0,
        forall|i: int|
            0 <= i < parts.len() ==> plain(#[trigger] parts[i]) || parts[i] == seq!['.', '.'],
    ensures
        names(crate::text::joined(parts, seq!['/']), false) == Seq::new(
            parts.len(),
            |i: int| part_of(parts[i], false)[0],
        ),
        crate::text::joined(parts, seq!['/']).len() >= parts[0].len() > 0,
        crate::text::joined(parts, seq!['/']).take(parts[0].len() as int) == parts[0],
        parts.len() > 1 ==> crate::text::joined(parts, seq!['/']).len() > parts[0].len()
            && crate::text::joined(parts, seq!['/'])[parts[0].len() as int] == '/',
    decreases parts.len(),
{
    let text = crate::text::joined(parts, seq!['/']);
    let last = parts.last();
    assert(last == parts[parts.len() - 1]);
    assert(has_no_sep(last, false));
    names_of_a_name(last, false);
    if parts.len() == 1 {
        assert(text.take(parts[0].len() as int) =~= parts[0]);
        assert(names(text, false) =~= Seq::new(parts.len(), |i: int| part_of(parts[i], false)[0]));
    } else {
        let rest = parts.drop_last();
        assert forall|i: int| 0 <= i < rest.len() implies plain(#[trigger] rest[i]) || rest[i]
            == seq!['.', '.'] by {
            assert(rest[i] == parts[i]);
        }
        joined_names(rest);
        let front = crate::text::joined(rest, seq!['/']);
        assert(text =~= front.push('/') + last);
        names_joined(front, '/', last, false);
        assert(names(text, false) =~= Seq::new(parts.len(), |i: int| part_of(parts[i], false)[0]));
        assert(rest[0] == parts[0]);
        assert(text.take(parts[0].len() as int) =~= front.take(parts[0].len() as int));
        if parts.len() == 2 {
            assert(front =~= parts[0]);
        } else {
            assert(text[parts[0].len() as int] == front[parts[0].len() as int]);
        }
    }
}

/// A slash and a backslash part names alike, but in a verbatim path, where the
/// backslash alone does; no other character does.
pub proof fn a_slash_and_a_backslash_part_names(c: char)
    ensures
        splits(c, false) <==> c == '/' || c == '\\',
        splits(c, true) <==> c == '\\',
        is_sep(c) <==> c == '/' || c == '\\',
{
}

/// A path that starts with a drive and a root names its place whatever folder
/// it is read from, and its first two parts are the drive and the root.
pub proof fn a_drive_and_a_root_make_a_path_absolute(s: Seq<char>)
    requires
        s.len() >= 3,
        'a' <= s[0] <= 'z' || 'A' <= s[0] <= 'Z',
        s[1] == ':',
        s[2] == '\\' || s[2] == '/',
    ensures
        absolute(s),
        shows_root(s),
        components(s).len() >= 2,
        components(s)[0] == (PartView { kind: PartKind::Prefix, text: s.take(2) }),
        components(s)[1].kind == PartKind::Root,
        body(s) == 3,
        components(s).skip(2) == names(s.skip(3), false),
{
    assert(!verbatim(s));
    assert(components(s).skip(2) =~= names(s.skip(3), false));
}

/// A drive without a root, a root without a drive and a plain name depend on
/// the folder they are read from.
pub proof fn a_path_without_both_is_relative(s: Seq<char>)
    ensures
        has_drive(s) && (s.len() == 2 || !is_sep(s[2])) ==> !absolute(s),
        s.len() > 0 && !is_sep(s[0]) && !has_drive(s) ==> !absolute(s) && prefix_len(s) == 0
            && body(s) == 0,
        s.len() == 1 && is_sep(s[0]) ==> !absolute(s) && rooted(s),
        s.len() == 0 ==> !absolute(s) && components(s).len() == 0,
{
    if s.len() == 0 {
        names_of_nothing(false);
        assert(s.skip(0) =~= Seq::<char>::empty());
    }
}

/// A piece between two separators is a name, unless it is empty, a `.`, which
/// stands for the folder itself, or a `..`, which leads up.
pub proof fn a_piece_is_a_name(piece: Seq<char>)
    ensures
        piece.len() == 0 ==> part_of(piece, false).len() == 0,
        piece == seq!['.'] ==> part_of(piece, false).len() == 0,
        piece == seq!['.', '.'] ==> part_of(piece, false) == seq![
            PartView { kind: PartKind::Parent, text: piece },
        ],
        piece.len() > 0 && piece != seq!['.'] && piece != seq!['.', '.'] ==> part_of(piece, false)
            == seq![PartView { kind: PartKind::Normal, text: piece }],
{
    let dot = seq!['.'];
    let dots = seq!['.', '.'];
    assert(dot.len() == 1 && dots.len() == 2);
}

/// The last name of a path is the name that was put behind it.
pub proof fn a_pushed_name_is_the_last_name(s: Seq<char>, name: Seq<char>)
    requires
        absolute(s),
        shows_root(s),
        firm(s),
        plain(name),
    ensures
        file_name_spec(pushed(s, name)) == Some(name),
        parent_spec(pushed(s, name)) is Some,
        components(parent_spec(pushed(s, name))->0) == components(s),
{
    pushing_a_plain_name_adds_a_part(s, name);
    parent_drops_the_last_part(pushed(s, name));
    assert(components(pushed(s, name)).drop_last() =~= components(s));
    let parts = components(pushed(s, name));
    if parent_spec(pushed(s, name)) is None {
        assert(parts[parts.len() - 1].kind == PartKind::Normal);
    }
}

/// The file beside another stands in its folder and has its full name with
/// something behind it.
pub proof fn the_file_beside_has_the_full_name(s: Seq<char>, suffix: Seq<char>)
    requires
        absolute(s),
        shows_root(s),
        firm(s),
        file_name_spec(s) matches Some(name) && plain(name + suffix),
    ensures
        components(beside_spec(s, suffix)) == components(s).drop_last().push(
            (PartView { kind: PartKind::Normal, text: file_name_spec(s)->0 + suffix }),
        ),
        file_name_spec(beside_spec(s, suffix)) == Some(file_name_spec(s)->0 + suffix),
{
    parent_drops_the_last_part(s);
    parent_keeps_the_head(s);
    let parts = components(s);
    if parent_spec(s) is None {
        assert(parts[parts.len() - 1].kind == PartKind::Normal);
    }
    pushing_a_plain_name_adds_a_part(popped(s), file_name_spec(s)->0 + suffix);
}

/// The extension of a name stands behind its last dot; a name without a dot,
/// or with none but the one it starts with, has none.
pub proof fn the_extension_stands_behind_the_last_dot(stem: Seq<char>, extension: Seq<char>)
    requires
        forall|i: int| 0 <= i < extension.len() ==> #[trigger] extension[i] != '.',
    ensures
        stem.len() > 0 ==> last_dot(stem + seq!['.'] + extension) == Some(stem.len() as int),
        last_dot(extension) is None,
        last_dot(seq!['.'] + extension) is None,
    decreases extension.len(),
{
    let name = stem + seq!['.'] + extension;
    if extension.len() > 0 {
        let less = extension.drop_last();
        assert(extension[extension.len() - 1] != '.');
        assert forall|i: int| 0 <= i < less.len() implies #[trigger] less[i] != '.' by {
            assert(extension[i] != '.');
        }
        the_extension_stands_behind_the_last_dot(stem, less);
        assert(name.drop_last() =~= stem + seq!['.'] + less);
        assert((seq!['.'] + extension).drop_last() =~= seq!['.'] + less);
    }
}

} // verus!
