//! Text: trimming, case, and numbers written out. Text is a sequence of
//! characters in every contract.

use vstd::prelude::*;
use vstd::string::*;

verus! {

/// The characters with the Unicode property White_Space.
pub open spec fn is_white(c: char) -> bool {
    ||| '\u{9}' <= c <= '\u{d}'
    ||| c == ' '
    ||| c == '\u{85}'
    ||| c == '\u{a0}'
    ||| c == '\u{1680}'
    ||| '\u{2000}' <= c <= '\u{200a}'
    ||| c == '\u{2028}'
    ||| c == '\u{2029}'
    ||| c == '\u{202f}'
    ||| c == '\u{205f}'
    ||| c == '\u{3000}'
}

/// Whether a character is white space.
fn is_space(c: char) -> (r: bool)
    ensures
        r == is_white(c),
{
    ('\u{9}' <= c && c <= '\u{d}') || c == ' ' || c == '\u{85}' || c == '\u{a0}' || c
        == '\u{1680}' || ('\u{2000}' <= c && c <= '\u{200a}') || c == '\u{2028}' || c
        == '\u{2029}' || c == '\u{202f}' || c == '\u{205f}' || c == '\u{3000}'
}

/// What `str::to_lowercase` gives: the text in lower case by the rules of
/// Unicode.
pub uninterp spec fn lowercase(text: Seq<char>) -> Seq<char>;

/// `str::to_lowercase`: the lower case of the text depends on the text alone.
#[verifier::external_body]
pub(crate) fn to_lowercase(text: &str) -> (r: String)
    ensures
        r@ == lowercase(text@),
{
    text.to_lowercase()
}

/// `String::push` appends one character.
#[verifier::external_body]
pub(crate) fn push(text: &mut String, c: char)
    ensures
        final(text)@ == old(text)@.push(c),
{
    text.push(c);
}

/// `str`'s equality compares the characters.
pub assume_specification[ <str as PartialEq<str>>::eq ](a: &str, b: &str) -> (r: bool)
    ensures
        r == (a@ == b@),
;

/// Whether two texts are the same.
pub fn is(text: &str, other: &str) -> (r: bool)
    ensures
        r == (text@ == other@),
{
    *text == *other
}

/// The characters of a text.
pub fn chars(text: &str) -> (r: Vec<char>)
    ensures
        r@ == text@,
{
    let mut out: Vec<char> = Vec::new();
    for c in it: text.chars()
        invariant
            it.seq() == text@,
            out@ == text@.take(it.index() as int),
    {
        out.push(c);
        assert(out@ =~= text@.take(it.index() as int + 1));
    }
    assert(out@ =~= text@);
    out
}

/// The text of the characters from `from` up to `to`.
pub fn text_of(chars: &[char], from: usize, to: usize) -> (r: String)
    requires
        from <= to <= chars@.len(),
    ensures
        r@ == chars@.subrange(from as int, to as int),
{
    let mut out: String = String::new();
    let mut i: usize = from;
    while i < to
        invariant
            from <= i <= to <= chars@.len(),
            out@ == chars@.subrange(from as int, i as int),
        decreases to - i,
    {
        push(&mut out, chars[i]);
        i += 1;
        assert(out@ =~= chars@.subrange(from as int, i as int));
    }
    out
}

/// The text without the white space at its start.
pub open spec fn trimmed_start(text: Seq<char>) -> Seq<char>
    decreases text.len(),
{
    if text.len() > 0 && is_white(text[0]) {
        trimmed_start(text.drop_first())
    } else {
        text
    }
}

/// The text without the white space at its end.
pub open spec fn trimmed_end(text: Seq<char>) -> Seq<char>
    decreases text.len(),
{
    if text.len() > 0 && is_white(text.last()) {
        trimmed_end(text.drop_last())
    } else {
        text
    }
}

/// The text without the white space around it.
pub open spec fn trimmed(text: Seq<char>) -> Seq<char> {
    trimmed_end(trimmed_start(text))
}

proof fn trimmed_start_skips(text: Seq<char>, count: int)
    requires
        0 <= count <= text.len(),
        forall|i: int| 0 <= i < count ==> is_white(text[i]),
        count < text.len() ==> !is_white(text[count]),
    ensures
        trimmed_start(text) == text.skip(count),
    decreases count,
{
    if count == 0 {
        assert(text.skip(0) =~= text);
    } else {
        let rest = text.drop_first();
        assert forall|i: int| 0 <= i < count - 1 implies is_white(rest[i]) by {
            assert(rest[i] == text[i + 1]);
        }
        trimmed_start_skips(rest, count - 1);
        assert(rest.skip(count - 1) =~= text.skip(count));
    }
}

proof fn trimmed_end_takes(text: Seq<char>, count: int)
    requires
        0 <= count <= text.len(),
        forall|i: int| count <= i < text.len() ==> is_white(text[i]),
        count > 0 ==> !is_white(text[count - 1]),
    ensures
        trimmed_end(text) == text.take(count),
    decreases text.len(),
{
    if count == text.len() {
        assert(text.take(count) =~= text);
    } else {
        let rest = text.drop_last();
        trimmed_end_takes(rest, count);
        assert(rest.take(count) =~= text.take(count));
    }
}

/// A trimmed text has no white space at either end.
pub proof fn trimmed_has_no_white_ends(text: Seq<char>)
    ensures
        trimmed(text).len() > 0 ==> !is_white(trimmed(text)[0]) && !is_white(trimmed(text).last()),
{
    trimmed_start_has_no_white_start(text);
    trimmed_end_has_no_white_end(trimmed_start(text));
}

proof fn trimmed_start_has_no_white_start(text: Seq<char>)
    ensures
        trimmed_start(text).len() > 0 ==> !is_white(trimmed_start(text)[0]),
    decreases text.len(),
{
    if text.len() > 0 && is_white(text[0]) {
        trimmed_start_has_no_white_start(text.drop_first());
    }
}

proof fn trimmed_end_has_no_white_end(text: Seq<char>)
    ensures
        trimmed_end(text).len() > 0 ==> !is_white(trimmed_end(text).last()) && trimmed_end(text)[0]
            == text[0],
        trimmed_end(text).len() <= text.len(),
    decreases text.len(),
{
    if text.len() > 0 && is_white(text.last()) {
        trimmed_end_has_no_white_end(text.drop_last());
    }
}

/// Trimming a trimmed text changes nothing.
pub proof fn trimmed_twice(text: Seq<char>)
    ensures
        trimmed(trimmed(text)) == trimmed(text),
{
    trimmed_has_no_white_ends(text);
}

/// The text without the white space around it.
pub fn trim(text: &str) -> (r: String)
    ensures
        r@ == trimmed(text@),
{
    let all: Vec<char> = chars(text);
    let mut from: usize = 0;
    while from < all.len() && is_space(all[from])
        invariant
            0 <= from <= all@.len(),
            forall|i: int| 0 <= i < from ==> is_white(all@[i]),
        decreases all.len() - from,
    {
        from += 1;
    }
    let mut to: usize = all.len();
    while to > from && is_space(all[to - 1])
        invariant
            from <= to <= all@.len(),
            forall|i: int| to <= i < all@.len() ==> is_white(all@[i]),
        decreases to,
    {
        to -= 1;
    }
    proof {
        trimmed_start_skips(all@, from as int);
        let rest = all@.skip(from as int);
        assert forall|i: int| to - from <= i < rest.len() implies is_white(rest[i]) by {
            assert(rest[i] == all@[i + from]);
        }
        trimmed_end_takes(rest, to - from);
        assert(rest.take(to - from) =~= all@.subrange(from as int, to as int));
    }
    text_of(&all, from, to)
}

/// The lower case of an ASCII letter; every other character as it is.
pub open spec fn ascii_lower(c: char) -> char {
    if 'A' <= c <= 'Z' {
        ((c as u32) + 32) as char
    } else {
        c
    }
}

pub open spec fn ascii_lowercase(text: Seq<char>) -> Seq<char> {
    text.map_values(|c: char| ascii_lower(c))
}

pub fn to_ascii_lower(c: char) -> (r: char)
    ensures
        r == ascii_lower(c),
{
    if 'A' <= c && c <= 'Z' {
        let code: u8 = (c as u8) + 32;
        code as char
    } else {
        c
    }
}

/// The text with its ASCII letters in lower case.
pub fn to_ascii_lowercase(text: &str) -> (r: String)
    ensures
        r@ == ascii_lowercase(text@),
{
    let all: Vec<char> = chars(text);
    let mut out: String = String::new();
    let mut i: usize = 0;
    while i < all.len()
        invariant
            0 <= i <= all@.len(),
            out@ == ascii_lowercase(all@.take(i as int)),
        decreases all.len() - i,
    {
        push(&mut out, to_ascii_lower(all[i]));
        i += 1;
        assert(out@ =~= ascii_lowercase(all@.take(i as int)));
    }
    assert(all@.take(all@.len() as int) =~= all@);
    out
}

/// Whether two texts are the same but for the case of their ASCII letters.
pub fn same_ignoring_ascii_case(a: &[char], b: &[char]) -> (r: bool)
    ensures
        r == (ascii_lowercase(a@) == ascii_lowercase(b@)),
{
    if a.len() != b.len() {
        assert(ascii_lowercase(a@).len() == a@.len());
        assert(ascii_lowercase(b@).len() == b@.len());
        return false;
    }
    let mut i: usize = 0;
    while i < a.len()
        invariant
            a@.len() == b@.len(),
            0 <= i <= a@.len(),
            forall|k: int| 0 <= k < i ==> ascii_lower(a@[k]) == ascii_lower(b@[k]),
        decreases a.len() - i,
    {
        if to_ascii_lower(a[i]) != to_ascii_lower(b[i]) {
            assert(ascii_lowercase(a@)[i as int] != ascii_lowercase(b@)[i as int]);
            return false;
        }
        i += 1;
    }
    assert(ascii_lowercase(a@) =~= ascii_lowercase(b@));
    true
}

/// The character of a decimal digit.
pub open spec fn digit(value: nat) -> char {
    (48 + value) as char
}

/// A whole number in decimal, with no leading zeros.
pub open spec fn decimal(value: nat) -> Seq<char>
    decreases value,
{
    if value < 10 {
        seq![digit(value)]
    } else {
        decimal(value / 10).push(digit(value % 10))
    }
}

/// A whole number in decimal.
pub fn write_decimal(value: u64) -> (r: String)
    ensures
        r@ == decimal(value as nat),
    decreases value,
{
    let last: u8 = (value % 10) as u8;
    let c: char = (48u8 + last) as char;
    let mut out: String = if value < 10 {
        String::new()
    } else {
        write_decimal(value / 10)
    };
    push(&mut out, c);
    assert(out@ =~= decimal(value as nat));
    out
}

/// Several texts in a row, with another between each two.
pub open spec fn joined(parts: Seq<Seq<char>>, between: Seq<char>) -> Seq<char>
    decreases parts.len(),
{
    if parts.len() == 0 {
        Seq::empty()
    } else if parts.len() == 1 {
        parts[0]
    } else {
        joined(parts.drop_last(), between) + between + parts.last()
    }
}

/// The texts of a list.
pub open spec fn texts(parts: Seq<String>) -> Seq<Seq<char>> {
    parts.map_values(|s: String| s@)
}

/// Several texts in a row, with another between each two.
pub fn join(parts: &Vec<String>, between: &str) -> (r: String)
    ensures
        r@ == joined(texts(parts@), between@),
{
    let mut out: String = String::new();
    let mut i: usize = 0;
    while i < parts.len()
        invariant
            0 <= i <= parts@.len(),
            out@ == joined(texts(parts@.take(i as int)), between@),
        decreases parts.len() - i,
    {
        if i > 0 {
            out.append(between);
        }
        out.append(parts[i].as_str());
        i += 1;
        proof {
            let now = texts(parts@.take(i as int));
            assert(now.drop_last() =~= texts(parts@.take(i - 1)));
            assert(now.last() == parts@[i - 1]@);
            if i == 1 {
                assert(out@ =~= now[0]);
            }
        }
    }
    assert(parts@.take(parts@.len() as int) =~= parts@);
    out
}

/// White space is what Unicode calls so: the tabs and line ends, the space, the
/// wide and narrow spaces and the separators of lines and paragraphs; no other
/// character is.
pub proof fn white_space_is_what_unicode_calls_so(c: char)
    ensures
        c as int <= 0x7f ==> (is_white(c) <==> 9 <= c as int <= 13 || c as int == 32),
        0x80 <= c as int <= 0xff ==> (is_white(c) <==> c as int == 0x85 || c as int == 0xa0),
        0x100 <= c as int <= 0x1fff ==> (is_white(c) <==> c as int == 0x1680),
        0x2000 <= c as int <= 0x2fff ==> (is_white(c) <==> c as int <= 0x200a || c as int == 0x2028
            || c as int == 0x2029 || c as int == 0x202f || c as int == 0x205f),
        0x3000 <= c as int ==> (is_white(c) <==> c as int == 0x3000),
{
}

/// White space around a text makes no difference to it trimmed, and a text
/// without any stays as it is.
pub proof fn white_space_around_makes_no_difference(
    before: Seq<char>,
    text: Seq<char>,
    after: Seq<char>,
)
    requires
        forall|i: int| 0 <= i < before.len() ==> is_white(#[trigger] before[i]),
        forall|i: int| 0 <= i < after.len() ==> is_white(#[trigger] after[i]),
        text.len() > 0 ==> !is_white(text[0]) && !is_white(text.last()),
    ensures
        trimmed(before + text + after) == text,
        trimmed(text) == text,
{
    let whole = before + text + after;
    if text.len() > 0 {
        trimmed_start_skips(whole, before.len() as int);
        let rest = whole.skip(before.len() as int);
        assert(rest =~= text + after);
        trimmed_end_takes(rest, text.len() as int);
        assert(rest.take(text.len() as int) =~= text);
    } else {
        trimmed_start_skips(whole, whole.len() as int);
        assert(whole.skip(whole.len() as int) =~= text);
    }
}

/// A text is itself trimmed with white space around it: nothing but white
/// space at its two ends is lost.
pub proof fn trimming_takes_white_space_alone(text: Seq<char>) -> (r: (int, int))
    ensures
        0 <= r.0 <= r.1 <= text.len(),
        trimmed(text) == text.subrange(r.0, r.1),
        forall|i: int| 0 <= i < r.0 ==> is_white(#[trigger] text[i]),
        forall|i: int| r.1 <= i < text.len() ==> is_white(#[trigger] text[i]),
{
    let from = white_start(text);
    trimmed_start_skips(text, from);
    let rest = text.skip(from);
    let count = white_end(rest);
    trimmed_end_takes(rest, count);
    assert(rest.take(count) =~= text.subrange(from, from + count));
    assert forall|i: int| from + count <= i < text.len() implies is_white(#[trigger] text[i]) by {
        assert(rest[i - from] == text[i]);
    }
    (from, from + count)
}

proof fn white_start(text: Seq<char>) -> (r: int)
    ensures
        0 <= r <= text.len(),
        forall|i: int| 0 <= i < r ==> is_white(#[trigger] text[i]),
        r < text.len() ==> !is_white(text[r]),
    decreases text.len(),
{
    if text.len() > 0 && is_white(text[0]) {
        let rest = white_start(text.drop_first());
        assert forall|i: int| 0 <= i < rest + 1 implies is_white(#[trigger] text[i]) by {
            if i > 0 {
                assert(text.drop_first()[i - 1] == text[i]);
            }
        }
        rest + 1
    } else {
        0
    }
}

proof fn white_end(text: Seq<char>) -> (r: int)
    ensures
        0 <= r <= text.len(),
        forall|i: int| r <= i < text.len() ==> is_white(#[trigger] text[i]),
        r > 0 ==> !is_white(text[r - 1]),
    decreases text.len(),
{
    if text.len() > 0 && is_white(text.last()) {
        let rest = white_end(text.drop_last());
        assert forall|i: int| rest <= i < text.len() implies is_white(#[trigger] text[i]) by {
            if i < text.len() - 1 {
                assert(text.drop_last()[i] == text[i]);
            }
        }
        rest
    } else {
        text.len() as int
    }
}

/// Only the ASCII capitals change, each to the small letter it is the capital
/// of, and a text keeps its length.
pub proof fn only_ascii_capitals_change(c: char, text: Seq<char>, i: int)
    requires
        0 <= i < text.len(),
    ensures
        65 <= c as int <= 90 ==> ascii_lower(c) as int == c as int + 32,
        !(65 <= c as int <= 90) ==> ascii_lower(c) == c,
        ascii_lowercase(text).len() == text.len(),
        ascii_lowercase(text)[i] == ascii_lower(text[i]),
{
}

/// Texts in a row: none make nothing, one is itself, and each further one
/// comes behind what parts them.
pub proof fn texts_stand_in_a_row(parts: Seq<Seq<char>>, part: Seq<char>, between: Seq<char>)
    ensures
        joined(Seq::empty(), between) == Seq::<char>::empty(),
        joined(seq![part], between) == part,
        parts.len() > 0 ==> joined(parts.push(part), between) == joined(parts, between) + between
            + part,
{
    assert(parts.push(part).drop_last() =~= parts);
}

} // verus!
