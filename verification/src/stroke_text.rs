//! The numbers of a stroke as text. In a file the points of a stroke are one
//! string, "x,y x,y", the way an SVG polyline writes them, and its pressures
//! are one string, "p p p". Every number is a whole count of small steps, so
//! what is written is read back exactly.

use crate::brush::{Place, Steps, DEFAULT_SENSITIVITY};
use crate::num::Single;
use crate::text::{chars, decimal, digit, joined, push, text_of, texts, write_decimal};
use vstd::prelude::*;
use vstd::string::*;

verus! {

/// The decimals a coordinate is written with at most: millionths.
pub const POINT_PLACES: usize = 6;

/// The decimals a pressure is written with at most: thousandths.
pub const PRESSURE_PLACES: usize = 3;

/// The most digits before the point of a number that is read.
pub const WHOLE_DIGITS: usize = 9;

/// A flag that is off is not written.
pub fn is_false(flag: &bool) -> (r: bool)
    ensures
        r == !*flag,
{
    !*flag
}

/// A sensitivity that is the default is not written.
pub fn is_default_sensitivity(sensitivity: &Single) -> (r: bool)
    ensures
        r == sensitivity.equals(crate::num::single(DEFAULT_SENSITIVITY)),
{
    sensitivity.same(Single { bits: DEFAULT_SENSITIVITY })
}

/// Ten to a power.
pub open spec fn ten_to(power: nat) -> nat
    decreases power,
{
    if power == 0 {
        1
    } else {
        10 * ten_to((power - 1) as nat)
    }
}

pub open spec fn is_digit(c: char) -> bool {
    '0' <= c <= '9'
}

/// At least one digit and nothing else.
pub open spec fn all_digits(text: Seq<char>) -> bool {
    text.len() > 0 && forall|i: int| 0 <= i < text.len() ==> is_digit(#[trigger] text[i])
}

/// What a row of digits is worth.
pub open spec fn worth(digits: Seq<char>) -> int
    decreases digits.len(),
{
    if digits.len() == 0 {
        0
    } else {
        10 * worth(digits.drop_last()) + (digits.last() as int - 48)
    }
}

/// A number in so many digits, with zeros in front.
pub open spec fn padded(value: nat, places: nat) -> Seq<char>
    decreases places,
{
    if places == 0 {
        Seq::empty()
    } else {
        padded(value / 10, (places - 1) as nat).push(digit(value % 10))
    }
}

/// The decimals of a fraction of so many places, without the zeros at its
/// end.
pub open spec fn decimals(value: nat, places: nat) -> Seq<char>
    decreases places,
{
    if places == 0 {
        Seq::empty()
    } else if value % 10 == 0 {
        decimals(value / 10, (places - 1) as nat)
    } else {
        padded(value, places)
    }
}

pub open spec fn size_of(count: int) -> nat {
    if count < 0 {
        (-count) as nat
    } else {
        count as nat
    }
}

/// Whether a number is written with a minus: it is below 0, or the zero below.
pub open spec fn has_minus(count: int, minus_zero: bool) -> bool {
    count < 0 || (count == 0 && minus_zero)
}

/// A count of steps as the number it stands for: the shortest decimal. The
/// zero below is `-0`.
pub open spec fn written(count: int, minus_zero: bool, places: nat) -> Seq<char> {
    let whole = size_of(count) / ten_to(places);
    let rest = size_of(count) % ten_to(places);
    let sign = if has_minus(count, minus_zero) {
        seq!['-']
    } else {
        Seq::empty()
    };
    let fraction = if rest == 0 {
        Seq::empty()
    } else {
        seq!['.'] + decimals(rest, places)
    };
    sign + decimal(whole) + fraction
}

/// Where a character first stands in a text, or the end.
pub open spec fn first(text: Seq<char>, c: char) -> int
    decreases text.len(),
{
    if text.len() == 0 || text[0] == c {
        0
    } else {
        1 + first(text.skip(1), c)
    }
}

proof fn first_is_there(text: Seq<char>, c: char, at: int)
    requires
        0 <= at <= text.len(),
        at < text.len() ==> text[at] == c,
        forall|i: int| 0 <= i < at ==> text[i] != c,
    ensures
        first(text, c) == at,
    decreases text.len(),
{
    if at > 0 {
        assert forall|i: int| 0 <= i < at - 1 implies text.skip(1)[i] != c by {
            assert(text[i + 1] != c);
        }
        first_is_there(text.skip(1), c, at - 1);
    }
}

fn find(text: &Vec<char>, from: usize, to: usize, c: char) -> (r: usize)
    requires
        from <= to <= text@.len(),
    ensures
        from <= r <= to,
        r - from == first(text@.subrange(from as int, to as int), c),
        r < to ==> text@[r as int] == c,
{
    let mut i: usize = from;
    let ghost part = text@.subrange(from as int, to as int);
    while i < to && text[i] != c
        invariant
            from <= i <= to <= text@.len(),
            part == text@.subrange(from as int, to as int),
            forall|j: int| 0 <= j < i - from ==> part[j] != c,
        decreases to - i,
    {
        i += 1;
    }
    proof {
        first_is_there(part, c, i - from);
    }
    i
}

/// The number a text stands for, as a count of steps and whether it is the
/// zero below: an optional minus, up to nine digits, and optionally a point
/// with as many decimals as there are places. None of any other text.
pub open spec fn number(text: Seq<char>, places: nat) -> Option<(int, bool)> {
    let negative = text.len() > 0 && text[0] == '-';
    let body = if negative {
        text.skip(1)
    } else {
        text
    };
    let dot = first(body, '.');
    let whole = body.take(dot);
    if !all_digits(whole) || whole.len() > WHOLE_DIGITS {
        None
    } else if dot == body.len() {
        Some(signed(negative, worth(whole) * ten_to(places)))
    } else {
        let rest = body.skip(dot + 1);
        if !all_digits(rest) || rest.len() > places {
            None
        } else {
            Some(
                signed(
                    negative,
                    worth(whole) * ten_to(places) + worth(rest) * ten_to(
                        (places - rest.len()) as nat,
                    ),
                ),
            )
        }
    }
}

pub open spec fn signed(negative: bool, amount: int) -> (int, bool) {
    if negative {
        (-amount, amount == 0)
    } else {
        (amount, false)
    }
}

proof fn ten_to_grows(power: nat)
    ensures
        ten_to(power) >= 1,
    decreases power,
{
    if power > 0 {
        ten_to_grows((power - 1) as nat);
    }
}

proof fn ten_to_adds(a: nat, b: nat)
    ensures
        ten_to(a + b) == ten_to(a) * ten_to(b),
    decreases a,
{
    if a > 0 {
        ten_to_adds((a - 1) as nat, b);
        assert(ten_to(a + b) == 10 * ten_to((a - 1 + b) as nat));
        assert(10 * (ten_to((a - 1) as nat) * ten_to(b)) == (10 * ten_to((a - 1) as nat)) * ten_to(
            b,
        )) by (nonlinear_arith);
    } else {
        assert(ten_to(b) == 1 * ten_to(b));
    }
}

proof fn digits_are_digits(value: nat)
    requires
        value < 10,
    ensures
        is_digit(digit(value)),
        digit(value) as int - 48 == value,
        digit(value) != '.',
        digit(value) != ',',
        digit(value) != '-',
        digit(value) != ' ',
{
    assert(digit(value) as int == 48 + value);
}

proof fn pushed_digits(text: Seq<char>, value: nat)
    requires
        value < 10,
        text.len() == 0 || all_digits(text),
    ensures
        all_digits(text.push(digit(value))),
        worth(text.push(digit(value))) == 10 * worth(text) + value,
{
    digits_are_digits(value);
    assert(text.push(digit(value)).drop_last() =~= text);
}

proof fn decimal_is_worth_itself(value: nat)
    ensures
        all_digits(decimal(value)),
        worth(decimal(value)) == value,
        forall|digits: nat|
            digits > 0 && value < #[trigger] ten_to(digits) ==> decimal(value).len() <= digits,
    decreases value,
{
    if value < 10 {
        pushed_digits(Seq::empty(), value);
        assert(Seq::<char>::empty().push(digit(value)) =~= decimal(value));
    } else {
        decimal_is_worth_itself(value / 10);
        pushed_digits(decimal(value / 10), value % 10);
        assert forall|digits: nat| digits > 0 && value < #[trigger] ten_to(digits) implies decimal(
            value,
        ).len() <= digits by {
            assert(ten_to(1) == 10) by {
                assert(ten_to(0) == 1);
            }
            assert(digits > 1);
            assert(value / 10 < ten_to((digits - 1) as nat));
        }
    }
}

proof fn padded_is_worth_itself(value: nat, places: nat)
    requires
        value < ten_to(places),
    ensures
        padded(value, places).len() == places,
        places > 0 ==> all_digits(padded(value, places)),
        worth(padded(value, places)) == value,
    decreases places,
{
    if places > 0 {
        padded_is_worth_itself(value / 10, (places - 1) as nat);
        pushed_digits(padded(value / 10, (places - 1) as nat), value % 10);
    }
}

proof fn decimals_are_worth_the_fraction(value: nat, places: nat)
    requires
        0 < value < ten_to(places),
    ensures
        all_digits(decimals(value, places)),
        decimals(value, places).len() <= places,
        worth(decimals(value, places)) * ten_to((places - decimals(value, places).len()) as nat)
            == value,
    decreases places,
{
    if places > 0 {
        if value % 10 == 0 {
            decimals_are_worth_the_fraction(value / 10, (places - 1) as nat);
            let text = decimals(value / 10, (places - 1) as nat);
            let left = (places - 1 - text.len()) as nat;
            assert(ten_to(left + 1) == 10 * ten_to(left));
            assert(worth(text) * (10 * ten_to(left)) == 10 * (worth(text) * ten_to(left)))
                by (nonlinear_arith);
            assert((places - text.len()) as nat == left + 1);
            assert(worth(text) * ten_to(left + 1) == value);
        } else {
            padded_is_worth_itself(value, places);
            let text = padded(value, places);
            assert((places - text.len()) as nat == 0);
            assert(worth(text) * ten_to(0) == worth(text)) by (nonlinear_arith)
                requires
                    ten_to(0) == 1,
            ;
        }
    }
}

/// A number is read back as it was written: the count of steps survives the
/// text exactly, and so does the sign of a zero.
pub proof fn a_written_number_reads_back(count: int, minus_zero: bool, places: nat)
    requires
        size_of(count) < ten_to(WHOLE_DIGITS as nat) * ten_to(places),
    ensures
        number(written(count, minus_zero, places), places) == Some(
            (count, count == 0 && minus_zero),
        ),
{
    let whole = size_of(count) / ten_to(places);
    let rest = size_of(count) % ten_to(places);
    ten_to_grows(places);
    vstd::arithmetic::div_mod::lemma_fundamental_div_mod(
        size_of(count) as int,
        ten_to(places) as int,
    );
    assert(whole < ten_to(WHOLE_DIGITS as nat)) by (nonlinear_arith)
        requires
            size_of(count) < ten_to(WHOLE_DIGITS as nat) * ten_to(places),
            size_of(count) == ten_to(places) * whole + rest,
            rest >= 0,
            ten_to(places) >= 1,
    ;
    assert(ten_to(places) * whole == whole * ten_to(places)) by (nonlinear_arith);
    decimal_is_worth_itself(whole);
    let text = written(count, minus_zero, places);
    let body = if has_minus(count, minus_zero) {
        text.skip(1)
    } else {
        text
    };
    let head = decimal(whole);
    let fraction = if rest == 0 {
        Seq::empty()
    } else {
        seq!['.'] + decimals(rest, places)
    };
    assert(body =~= head + fraction);
    assert(text.len() > 0 && (text[0] == '-' <==> has_minus(count, minus_zero))) by {
        if !has_minus(count, minus_zero) {
            assert(is_digit(head[0]));
            assert(text[0] == head[0]);
        }
    }
    assert forall|i: int| 0 <= i < head.len() implies body[i] != '.' by {
        assert(is_digit(head[i]));
        assert(body[i] == head[i]);
    }
    first_is_there(body, '.', head.len() as int);
    assert(body.take(head.len() as int) =~= head);
    if rest > 0 {
        decimals_are_worth_the_fraction(rest, places);
        assert(body.skip(head.len() as int + 1) =~= decimals(rest, places));
    }
}

fn power_of_ten(power: usize) -> (r: u64)
    requires
        power <= WHOLE_DIGITS,
    ensures
        r == ten_to(power as nat),
        1 <= r <= 1_000_000_000,
{
    let mut r: u64 = 1;
    let mut i: usize = 0;
    proof {
        reveal_with_fuel(ten_to, 10);
    }
    while i < power
        invariant
            0 <= i <= power <= WHOLE_DIGITS,
            r == ten_to(i as nat),
        decreases power - i,
    {
        proof {
            ten_to_bound(i as nat);
        }
        r = 10 * r;
        i += 1;
    }
    proof {
        ten_to_bound(power as nat);
        ten_to_grows(power as nat);
    }
    r
}

proof fn ten_to_bound(power: nat)
    requires
        power <= 9,
    ensures
        ten_to(power) <= 1_000_000_000,
        ten_to(9) == 1_000_000_000,
{
    reveal_with_fuel(ten_to, 11);
    assert(ten_to(9) == 1_000_000_000);
}

fn write_padded(out: &mut String, value: u64, places: usize)
    ensures
        final(out)@ == old(out)@ + padded(value as nat, places as nat),
    decreases places,
{
    if places > 0 {
        write_padded(out, value / 10, places - 1);
        let last: u8 = (value % 10) as u8;
        push(out, (48u8 + last) as char);
        assert((48 + last) as char == digit((value % 10) as nat));
        assert(out@ =~= old(out)@ + padded(value as nat, places as nat));
    } else {
        assert(out@ =~= old(out)@ + padded(value as nat, places as nat));
    }
}

fn write_decimals(out: &mut String, value: u64, places: usize)
    ensures
        final(out)@ == old(out)@ + decimals(value as nat, places as nat),
    decreases places,
{
    if places == 0 {
        assert(out@ =~= old(out)@ + decimals(value as nat, places as nat));
    } else if value % 10 == 0 {
        write_decimals(out, value / 10, places - 1);
    } else {
        write_padded(out, value, places);
    }
}

/// Writes a count of steps as the number it stands for.
pub fn write_number(count: i64, minus_zero: bool, places: usize) -> (r: String)
    requires
        places <= WHOLE_DIGITS,
    ensures
        r@ == written(count as int, minus_zero, places as nat),
{
    let size: u64 = if count < 0 {
        (-(count as i128)) as u64
    } else {
        count as u64
    };
    let scale: u64 = power_of_ten(places);
    let whole: u64 = size / scale;
    let rest: u64 = size % scale;
    let mut out: String = String::new();
    if count < 0 || (count == 0 && minus_zero) {
        push(&mut out, '-');
    }
    let digits: String = write_decimal(whole);
    out.append(digits.as_str());
    if rest != 0 {
        push(&mut out, '.');
        write_decimals(&mut out, rest, places);
    }
    assert(out@ =~= written(count as int, minus_zero, places as nat));
    out
}

proof fn worth_is_bounded(digits: Seq<char>)
    requires
        digits.len() == 0 || all_digits(digits),
    ensures
        0 <= worth(digits) < ten_to(digits.len()),
    decreases digits.len(),
{
    if digits.len() > 0 {
        assert(is_digit(digits.last()));
        assert forall|i: int| 0 <= i < digits.drop_last().len() implies is_digit(
            #[trigger] digits.drop_last()[i],
        ) by {
            assert(is_digit(digits[i]));
        }
        worth_is_bounded(digits.drop_last());
    }
}

/// What a row of digits is worth, if it is at least one digit, at most `most`
/// of them, and nothing else.
fn read_digits(text: &Vec<char>, from: usize, to: usize, most: usize) -> (r: Option<u64>)
    requires
        from <= to <= text@.len(),
        most <= WHOLE_DIGITS,
    ensures
        ({
            let part = text@.subrange(from as int, to as int);
            if all_digits(part) && part.len() <= most {
                r matches Some(value) && value == worth(part) && value < ten_to(part.len())
            } else {
                r is None
            }
        }),
{
    let ghost part = text@.subrange(from as int, to as int);
    if from == to || to - from > most {
        return None;
    }
    let mut value: u64 = 0;
    let mut i: usize = from;
    assert(part.take(0) =~= Seq::empty());
    while i < to
        invariant
            from <= i <= to <= text@.len(),
            to - from <= most <= WHOLE_DIGITS,
            part == text@.subrange(from as int, to as int),
            forall|j: int| 0 <= j < i - from ==> is_digit(#[trigger] part[j]),
            value == worth(part.take(i - from)),
            value < ten_to((i - from) as nat),
        decreases to - i,
    {
        let c: char = text[i];
        assert(part[i - from] == c);
        if !('0' <= c && c <= '9') {
            return None;
        }
        let digit: u64 = (c as u32 - 48) as u64;
        proof {
            ten_to_bound((i - from) as nat);
            assert(part.take(i + 1 - from).drop_last() =~= part.take(i - from));
        }
        value = 10 * value + digit;
        i += 1;
    }
    assert(part.take(i - from) =~= part);
    Some(value)
}

/// A count of steps.
pub open spec fn steps(number: (int, bool)) -> Steps {
    Steps { count: Some(number.0 as i64), minus_zero: number.1 }
}

/// The number a text stands for, as a count of steps.
pub fn read_number(text: &str, places: usize) -> (r: Option<Steps>)
    requires
        places <= WHOLE_DIGITS,
    ensures
        match number(text@, places as nat) {
            Some(found) => r == Some(steps(found)) && i64::MIN <= found.0 <= i64::MAX,
            None => r is None,
        },
{
    let all: Vec<char> = chars(text);
    let negative: bool = all.len() > 0 && all[0] == '-';
    let from: usize = if negative {
        1
    } else {
        0
    };
    let ghost body = if negative {
        text@.skip(1)
    } else {
        text@
    };
    let end: usize = all.len();
    assert(all@.subrange(from as int, end as int) =~= body);
    let dot: usize = find(&all, from, end, '.');
    assert(all@.subrange(from as int, dot as int) =~= body.take(dot - from));
    let whole: u64 = match read_digits(&all, from, dot, WHOLE_DIGITS) {
        Some(value) => value,
        None => {
            return None;
        },
    };
    let scale: u64 = power_of_ten(places);
    proof {
        ten_to_bound((dot - from) as nat);
        assert(0 <= whole * scale <= 1_000_000_000_000_000_000) by (nonlinear_arith)
            requires
                0 <= whole <= 1_000_000_000,
                0 <= scale <= 1_000_000_000,
        ;
    }
    let mut amount: u64 = whole * scale;
    if dot < end {
        assert(all@.subrange(dot + 1, end as int) =~= body.skip(dot - from + 1));
        let part: u64 = match read_digits(&all, dot + 1, end, places) {
            Some(value) => value,
            None => {
                return None;
            },
        };
        let left: u64 = power_of_ten(places - (end - dot - 1));
        proof {
            ten_to_bound((end - dot - 1) as nat);
            assert(0 <= part * left <= 1_000_000_000_000_000_000) by (nonlinear_arith)
                requires
                    0 <= part <= 1_000_000_000,
                    0 <= left <= 1_000_000_000,
            ;
        }
        amount = amount + part * left;
    }
    if negative {
        Some(Steps { count: Some(-(amount as i64)), minus_zero: amount == 0 })
    } else {
        Some(Steps { count: Some(amount as i64), minus_zero: false })
    }
}

/// The white space that parts the numbers of a text: the ASCII kinds.
pub open spec fn is_gap(c: char) -> bool {
    c == ' ' || c == '\t' || c == '\n' || c == '\u{c}' || c == '\r'
}

/// The words of a text that are done, and the one that goes on at its end.
pub open spec fn parted(text: Seq<char>) -> (Seq<Seq<char>>, Seq<char>)
    decreases text.len(),
{
    if text.len() == 0 {
        (Seq::empty(), Seq::empty())
    } else {
        let (done, word) = parted(text.drop_last());
        if !is_gap(text.last()) {
            (done, word.push(text.last()))
        } else if word.len() == 0 {
            (done, word)
        } else {
            (done.push(word), Seq::empty())
        }
    }
}

/// The words of a text: its parts without white space.
pub open spec fn words(text: Seq<char>) -> Seq<Seq<char>> {
    let (done, word) = parted(text);
    if word.len() == 0 {
        done
    } else {
        done.push(word)
    }
}

/// The words of a text.
pub fn split_words(text: &str) -> (r: Vec<String>)
    ensures
        texts(r@) == words(text@),
{
    let all: Vec<char> = chars(text);
    let mut done: Vec<String> = Vec::new();
    let mut word: String = String::new();
    let mut long: usize = 0;
    let mut i: usize = 0;
    assert(all@.take(0) =~= Seq::empty());
    assert(texts(done@) =~= Seq::empty());
    while i < all.len()
        invariant
            0 <= i <= all@.len(),
            long <= i,
            long == word@.len(),
            (texts(done@), word@) == parted(all@.take(i as int)),
        decreases all.len() - i,
    {
        let c: char = all[i];
        let gap: bool = c == ' ' || c == '\t' || c == '\n' || c == '\u{c}' || c == '\r';
        assert(all@.take(i + 1).drop_last() =~= all@.take(i as int));
        if !gap {
            push(&mut word, c);
            long += 1;
        } else if long > 0 {
            let ghost before = texts(done@);
            let ghost finished = word@;
            done.push(word);
            assert(texts(done@) =~= before.push(finished));
            word = String::new();
            long = 0;
            assert(word@ =~= Seq::empty());
        }
        i += 1;
    }
    assert(all@.take(i as int) =~= all@);
    if long > 0 {
        let ghost before = texts(done@);
        let ghost finished = word@;
        done.push(word);
        assert(texts(done@) =~= before.push(finished));
    }
    done
}

proof fn a_word_goes_on(text: Seq<char>, word: Seq<char>)
    requires
        forall|i: int| 0 <= i < word.len() ==> !is_gap(#[trigger] word[i]),
    ensures
        parted(text + word) == (parted(text).0, parted(text).1 + word),
    decreases word.len(),
{
    if word.len() == 0 {
        assert(text + word =~= text);
        assert(parted(text).1 + word =~= parted(text).1);
    } else {
        a_word_goes_on(text, word.drop_last());
        assert((text + word).drop_last() =~= text + word.drop_last());
        assert((text + word).last() == word.last());
        assert((parted(text).1 + word.drop_last()).push(word.last()) =~= parted(text).1 + word);
    }
}

/// A word of a row: not empty and without white space.
pub open spec fn is_word(word: Seq<char>) -> bool {
    word.len() > 0 && forall|i: int| 0 <= i < word.len() ==> !is_gap(#[trigger] word[i])
}

/// Words in a row with a space between each two are read as those words.
pub proof fn a_row_of_words_reads_back(parts: Seq<Seq<char>>)
    requires
        forall|i: int| 0 <= i < parts.len() ==> is_word(#[trigger] parts[i]),
    ensures
        words(joined(parts, seq![' '])) == parts,
{
    a_row_parts(parts);
    if parts.len() > 0 {
        assert(is_word(parts.last()));
        assert(parts.drop_last().push(parts.last()) =~= parts);
    } else {
        assert(words(joined(parts, seq![' '])) =~= parts);
    }
}

proof fn a_row_parts(parts: Seq<Seq<char>>)
    requires
        forall|i: int| 0 <= i < parts.len() ==> is_word(#[trigger] parts[i]),
    ensures
        parts.len() > 0 ==> parted(joined(parts, seq![' '])) == (parts.drop_last(), parts.last()),
        parts.len() == 0 ==> parted(joined(parts, seq![' '])) == (
            Seq::<Seq<char>>::empty(),
            Seq::<char>::empty(),
        ),
    decreases parts.len(),
{
    if parts.len() == 1 {
        a_word_goes_on(Seq::empty(), parts[0]);
        assert(Seq::<char>::empty() + parts[0] =~= parts[0]);
        assert(parts.drop_last() =~= Seq::empty());
    } else if parts.len() > 1 {
        let before = parts.drop_last();
        assert forall|i: int| 0 <= i < before.len() implies is_word(#[trigger] before[i]) by {
            assert(is_word(parts[i]));
        }
        a_row_parts(before);
        let head = joined(before, seq![' ']);
        let spaced = head + seq![' '];
        assert(spaced.drop_last() =~= head);
        assert(is_word(before.last()));
        assert(parted(spaced) == (before.drop_last().push(before.last()), Seq::<char>::empty()));
        assert(before.drop_last().push(before.last()) =~= before);
        assert(is_word(parts.last()));
        a_word_goes_on(spaced, parts.last());
        assert(Seq::<char>::empty() + parts.last() =~= parts.last());
    }
}

/// The two texts of a pair "x,y": what stands before the first comma and
/// what stands after it.
pub open spec fn pair(word: Seq<char>) -> Option<(Seq<char>, Seq<char>)> {
    let comma = first(word, ',');
    if comma < word.len() {
        Some((word.take(comma), word.skip(comma + 1)))
    } else {
        None
    }
}

/// The two texts of a pair.
pub fn split_pair(word: &str) -> (r: Option<(String, String)>)
    ensures
        match pair(word@) {
            Some((x, y)) => r matches Some((a, b)) && a@ == x && b@ == y,
            None => r is None,
        },
{
    let all: Vec<char> = chars(word);
    let end: usize = all.len();
    assert(all@.subrange(0, end as int) =~= word@);
    let comma: usize = find(&all, 0, end, ',');
    if comma < end {
        let x: String = text_of(all.as_slice(), 0, comma);
        let y: String = text_of(all.as_slice(), comma + 1, end);
        assert(x@ =~= word@.take(comma as int));
        assert(y@ =~= word@.skip(comma + 1));
        Some((x, y))
    } else {
        None
    }
}

/// The point a word stands for, in steps.
pub open spec fn point(word: Seq<char>) -> Option<((int, bool), (int, bool))> {
    match pair(word) {
        None => None,
        Some((x, y)) => match (number(x, POINT_PLACES as nat), number(y, POINT_PLACES as nat)) {
            (Some(a), Some(b)) => Some((a, b)),
            _ => None,
        },
    }
}

/// A point of whole steps.
pub open spec fn place(x: (int, bool), y: (int, bool)) -> Place {
    Place { x: steps(x), y: steps(y) }
}

/// The points of a text, or none when one of its words is no pair of plain
/// numbers.
pub fn read_points(text: &str) -> (r: Option<Vec<Place>>)
    ensures
        r is Some <==> forall|i: int|
            0 <= i < words(text@).len() ==> point(#[trigger] words(text@)[i]) is Some,
        r matches Some(points) ==> points@.len() == words(text@).len() && forall|i: int|
            0 <= i < points@.len() ==> (point(#[trigger] words(text@)[i]) matches Some((x, y))
                && points@[i] == place(x, y)),
{
    let parts: Vec<String> = split_words(text);
    let mut points: Vec<Place> = Vec::new();
    let mut i: usize = 0;
    while i < parts.len()
        invariant
            0 <= i <= parts@.len(),
            texts(parts@) == words(text@),
            points@.len() == i,
            forall|j: int|
                0 <= j < i ==> (point(#[trigger] words(text@)[j]) matches Some((x, y))
                    && points@[j] == place(x, y)),
        decreases parts.len() - i,
    {
        assert(words(text@)[i as int] == parts@[i as int]@);
        match read_point(parts[i].as_str()) {
            Some(read) => {
                points.push(read);
            },
            None => {
                return None;
            },
        }
        i += 1;
    }
    Some(points)
}

fn read_point(word: &str) -> (r: Option<Place>)
    ensures
        match point(word@) {
            Some((x, y)) => r matches Some(read) && read == place(x, y),
            None => r is None,
        },
{
    match split_pair(word) {
        None => None,
        Some((x, y)) => {
            match (read_number(x.as_str(), POINT_PLACES), read_number(y.as_str(), POINT_PLACES)) {
                (Some(a), Some(b)) => Some(Place { x: a, y: b }),
                _ => None,
            }
        },
    }
}

/// The texts of a list of points, or none when one of its words is no pair:
/// for the numbers written in another way than this library writes them.
pub fn split_points(text: &str) -> (r: Option<Vec<(String, String)>>)
    ensures
        r is Some <==> forall|i: int|
            0 <= i < words(text@).len() ==> pair(#[trigger] words(text@)[i]) is Some,
        r matches Some(pairs) ==> pairs@.len() == words(text@).len() && forall|i: int|
            0 <= i < pairs@.len() ==> (pair(#[trigger] words(text@)[i]) matches Some((x, y))
                && pairs@[i].0@ == x && pairs@[i].1@ == y),
{
    let parts: Vec<String> = split_words(text);
    let mut pairs: Vec<(String, String)> = Vec::new();
    let mut i: usize = 0;
    while i < parts.len()
        invariant
            0 <= i <= parts@.len(),
            texts(parts@) == words(text@),
            pairs@.len() == i,
            forall|j: int|
                0 <= j < i ==> (pair(#[trigger] words(text@)[j]) matches Some((x, y))
                    && pairs@[j].0@ == x && pairs@[j].1@ == y),
        decreases parts.len() - i,
    {
        assert(words(text@)[i as int] == parts@[i as int]@);
        match split_pair(parts[i].as_str()) {
            Some(read) => {
                pairs.push(read);
            },
            None => {
                return None;
            },
        }
        i += 1;
    }
    Some(pairs)
}

/// A point that has a place: both of its coordinates are counts of steps.
pub open spec fn has_place(point: Place) -> bool {
    point.x.count is Some && point.y.count is Some
}

/// The text of a count of steps.
pub open spec fn steps_text(at: Steps, places: nat) -> Seq<char> {
    written(at.count.unwrap() as int, at.minus_zero, places)
}

/// The text of a point: "x,y".
pub open spec fn point_text(point: Place) -> Seq<char> {
    steps_text(point.x, POINT_PLACES as nat) + seq![','] + steps_text(
        point.y,
        POINT_PLACES as nat,
    )
}

/// The text of a list of points: "x,y x,y".
pub open spec fn points_text(points: Seq<Place>) -> Seq<char> {
    joined(points.map_values(|p: Place| point_text(p)), seq![' '])
}

/// The points of a stroke as one string.
pub fn write_points(points: &Vec<Place>) -> (r: String)
    requires
        forall|i: int| 0 <= i < points@.len() ==> has_place(#[trigger] points@[i]),
    ensures
        r@ == points_text(points@),
{
    let mut parts: Vec<String> = Vec::new();
    let mut i: usize = 0;
    while i < points.len()
        invariant
            0 <= i <= points@.len(),
            forall|j: int| 0 <= j < points@.len() ==> has_place(#[trigger] points@[j]),
            parts@.len() == i,
            forall|j: int| 0 <= j < i ==> #[trigger] parts@[j]@ == point_text(points@[j]),
        decreases points.len() - i,
    {
        let at: Place = points[i];
        assert(has_place(points@[i as int]));
        let mut text: String = match at.x.count {
            Some(x) => write_number(x, at.x.minus_zero, POINT_PLACES),
            None => String::new(),
        };
        push(&mut text, ',');
        let y: String = match at.y.count {
            Some(y) => write_number(y, at.y.minus_zero, POINT_PLACES),
            None => String::new(),
        };
        text.append(y.as_str());
        assert(text@ =~= point_text(at));
        parts.push(text);
        i += 1;
    }
    proof {
        reveal_strlit(" ");
        assert(" "@ =~= seq![' ']);
        assert(texts(parts@) =~= points@.map_values(|p: Place| point_text(p)));
    }
    crate::text::join(&parts, " ")
}

/// The text of a list of pressures: "p p p".
pub open spec fn pressures_text(pressures: Seq<Steps>) -> Seq<char> {
    joined(
        pressures.map_values(|p: Steps| steps_text(p, PRESSURE_PLACES as nat)),
        seq![' '],
    )
}

/// The pressures of a stroke as one string.
pub fn write_pressures(pressures: &Vec<Steps>) -> (r: String)
    requires
        forall|i: int| 0 <= i < pressures@.len() ==> (#[trigger] pressures@[i]).count is Some,
    ensures
        r@ == pressures_text(pressures@),
{
    let mut parts: Vec<String> = Vec::new();
    let mut i: usize = 0;
    while i < pressures.len()
        invariant
            0 <= i <= pressures@.len(),
            forall|j: int|
                0 <= j < pressures@.len() ==> (#[trigger] pressures@[j]).count is Some,
            parts@.len() == i,
            forall|j: int|
                0 <= j < i ==> #[trigger] parts@[j]@ == steps_text(
                    pressures@[j],
                    PRESSURE_PLACES as nat,
                ),
        decreases pressures.len() - i,
    {
        let at: Steps = pressures[i];
        assert(pressures@[i as int].count is Some);
        let text: String = match at.count {
            Some(count) => write_number(count, at.minus_zero, PRESSURE_PLACES),
            None => String::new(),
        };
        parts.push(text);
        i += 1;
    }
    proof {
        reveal_strlit(" ");
        assert(" "@ =~= seq![' ']);
        assert(texts(parts@) =~= pressures@.map_values(
            |p: Steps| steps_text(p, PRESSURE_PLACES as nat),
        ));
    }
    crate::text::join(&parts, " ")
}

/// The pressures of a text, or none when one of its words is no plain number.
pub fn read_pressures(text: &str) -> (r: Option<Vec<Steps>>)
    ensures
        r is Some <==> forall|i: int|
            0 <= i < words(text@).len() ==> number(
                #[trigger] words(text@)[i],
                PRESSURE_PLACES as nat,
            ) is Some,
        r matches Some(read) ==> read@.len() == words(text@).len() && forall|i: int|
            0 <= i < read@.len() ==> (number(#[trigger] words(text@)[i], PRESSURE_PLACES as nat)
                matches Some(found) && read@[i] == steps(found)),
{
    let parts: Vec<String> = split_words(text);
    let mut read: Vec<Steps> = Vec::new();
    let mut i: usize = 0;
    while i < parts.len()
        invariant
            0 <= i <= parts@.len(),
            texts(parts@) == words(text@),
            read@.len() == i,
            forall|j: int|
                0 <= j < i ==> (number(#[trigger] words(text@)[j], PRESSURE_PLACES as nat) matches Some(
                    found,
                ) && read@[j] == steps(found)),
        decreases parts.len() - i,
    {
        assert(words(text@)[i as int] == parts@[i as int]@);
        match read_number(parts[i].as_str(), PRESSURE_PLACES) {
            Some(found) => {
                read.push(found);
            },
            None => {
                return None;
            },
        }
        i += 1;
    }
    Some(read)
}

proof fn a_written_number_is_plain(count: int, minus_zero: bool, places: nat)
    ensures
        is_word(written(count, minus_zero, places)),
        forall|i: int|
            0 <= i < written(count, minus_zero, places).len() ==> #[trigger] written(count, minus_zero, places)[i] != ',',
{
    let whole = size_of(count) / ten_to(places);
    let rest = size_of(count) % ten_to(places);
    let text = written(count, minus_zero, places);
    let sign: int = if has_minus(count, minus_zero) {
        1
    } else {
        0
    };
    ten_to_grows(places);
    decimal_is_worth_itself(whole);
    if rest > 0 {
        decimals_are_worth_the_fraction(rest, places);
    }
    assert forall|i: int| 0 <= i < text.len() implies !is_gap(#[trigger] text[i]) && text[i]
        != ',' by {
        let head = decimal(whole);
        if i < sign {
            assert(text[i] == '-');
        } else if i < sign + head.len() {
            assert(is_digit(head[i - sign]));
            assert(text[i] == head[i - sign]);
        } else if i == sign + head.len() {
            assert(text[i] == '.');
        } else {
            assert(is_digit(decimals(rest, places)[i - sign - head.len() - 1]));
            assert(text[i] == decimals(rest, places)[i - sign - head.len() - 1]);
        }
    }
}

/// A point short enough to be read: each coordinate under a thousand million,
/// and a zero below only where it is 0.
pub open spec fn readable(point: Place) -> bool {
    &&& has_place(point)
    &&& point.x.minus_zero ==> point.x.count == Some(0i64)
    &&& point.y.minus_zero ==> point.y.count == Some(0i64)
    &&& size_of(point.x.count.unwrap() as int) < 1_000_000_000_000_000
    &&& size_of(point.y.count.unwrap() as int) < 1_000_000_000_000_000
}

/// The points of a stroke survive the file exactly: the text that is written
/// of them is read as the same points.
pub proof fn written_points_read_back(points: Seq<Place>)
    requires
        forall|i: int| 0 <= i < points.len() ==> readable(#[trigger] points[i]),
    ensures
        words(points_text(points)).len() == points.len(),
        forall|i: int|
            0 <= i < points.len() ==> (point(#[trigger] words(points_text(points))[i]) matches Some(
                (x, y),
            ) && place(x, y) == points[i]),
{
    let parts = points.map_values(|p: Place| point_text(p));
    assert(ten_to(9) * ten_to(6) == 1_000_000_000_000_000) by {
        reveal_with_fuel(ten_to, 11);
        assert(ten_to(9) == 1_000_000_000);
        assert(ten_to(6) == 1_000_000);
    }
    assert forall|i: int| 0 <= i < parts.len() implies is_word(#[trigger] parts[i]) && (point(
        parts[i],
    ) matches Some((x, y)) && place(x, y) == points[i]) by {
        assert(readable(points[i]));
        let (x, y) = (points[i].x.count.unwrap() as int, points[i].y.count.unwrap() as int);
        let (left, right) = (points[i].x.minus_zero, points[i].y.minus_zero);
        let (a, b) = (written(x, left, 6), written(y, right, 6));
        a_written_number_is_plain(x, left, 6);
        a_written_number_is_plain(y, right, 6);
        a_written_number_reads_back(x, left, 6);
        a_written_number_reads_back(y, right, 6);
        let text = point_text(points[i]);
        assert(parts[i] == text);
        assert forall|k: int| 0 <= k < text.len() implies !is_gap(#[trigger] text[k]) by {
            if k < a.len() {
                assert(text[k] == a[k]);
            } else if k > a.len() {
                assert(text[k] == b[k - a.len() - 1]);
            }
        }
        assert forall|k: int| 0 <= k < a.len() implies text[k] != ',' by {
            assert(text[k] == a[k]);
        }
        first_is_there(text, ',', a.len() as int);
        assert(text.take(a.len() as int) =~= a);
        assert(text.skip(a.len() as int + 1) =~= b);
    }
    a_row_of_words_reads_back(parts);
}

/// The pressures of a stroke survive the file exactly.
pub proof fn written_pressures_read_back(pressures: Seq<Steps>)
    requires
        forall|i: int|
            0 <= i < pressures.len() ==> (#[trigger] pressures[i]).count is Some && size_of(
                pressures[i].count.unwrap() as int,
            ) < 1_000_000_000_000 && (pressures[i].minus_zero ==> pressures[i].count == Some(0i64)),
    ensures
        words(pressures_text(pressures)).len() == pressures.len(),
        forall|i: int|
            0 <= i < pressures.len() ==> (number(
                #[trigger] words(pressures_text(pressures))[i],
                PRESSURE_PLACES as nat,
            ) matches Some(found) && pressures[i] == steps(found)),
{
    let parts = pressures.map_values(|p: Steps| steps_text(p, PRESSURE_PLACES as nat));
    assert(ten_to(9) * ten_to(3) == 1_000_000_000_000) by {
        reveal_with_fuel(ten_to, 11);
        assert(ten_to(9) == 1_000_000_000);
        assert(ten_to(3) == 1_000);
    }
    assert forall|i: int| 0 <= i < parts.len() implies is_word(#[trigger] parts[i]) && (number(
        parts[i],
        PRESSURE_PLACES as nat,
    ) matches Some(found) && pressures[i] == steps(found)) by {
        let count = pressures[i].count.unwrap() as int;
        assert(pressures[i].count is Some);
        let minus_zero = pressures[i].minus_zero;
        a_written_number_is_plain(count, minus_zero, 3);
        a_written_number_reads_back(count, minus_zero, 3);
    }
    a_row_of_words_reads_back(parts);
}

/// What is said of points that cannot be read.
pub fn points_error() -> (r: &'static str)
    ensures
        r@ == "the points of a stroke are pairs \"x,y\" apart by spaces"@,
{
    "the points of a stroke are pairs \"x,y\" apart by spaces"
}

/// What is said of pressures that cannot be read.
pub fn pressure_error() -> (r: &'static str)
    ensures
        r@ == "the pressures of a stroke are numbers apart by spaces"@,
{
    "the pressures of a stroke are numbers apart by spaces"
}

/// A decimal is worth its number, is digits alone and starts with no zero but
/// the number 0 itself.
pub proof fn a_decimal_is_its_number(value: nat)
    ensures
        worth(decimal(value)) == value,
        all_digits(decimal(value)),
        value > 0 ==> decimal(value)[0] != '0',
        value == 0 ==> decimal(value) == seq!['0'],
{
    decimal_is_worth_itself(value);
    decimal_starts_with_its_first_digit(value);
    decimal_is_all_digits(value);
}

proof fn decimal_is_all_digits(value: nat)
    ensures
        all_digits(decimal(value)),
    decreases value,
{
    if value >= 10 {
        decimal_is_all_digits(value / 10);
    }
    assert(is_digit(digit(value % 10)));
}

proof fn decimal_starts_with_its_first_digit(value: nat)
    ensures
        decimal(value).len() > 0,
        value > 0 ==> decimal(value)[0] != '0',
    decreases value,
{
    if value >= 10 {
        decimal_starts_with_its_first_digit(value / 10);
    }
}

/// Each further digit makes a row worth ten times as much and the digit.
pub proof fn a_digit_more_is_ten_times_as_much(digits: Seq<char>, c: char)
    ensures
        worth(digits.push(c)) == 10 * worth(digits) + (c as int - 48),
        worth(Seq::empty()) == 0,
        ten_to(0) == 1,
        is_digit(c) <==> 48 <= c as int <= 57,
{
    assert(digits.push(c).drop_last() =~= digits);
}

/// A power of ten more is ten times as much.
pub proof fn a_power_more_is_ten_times_as_much(power: nat)
    ensures
        ten_to(power + 1) == 10 * ten_to(power),
{
}

/// A number reads as what its digits are worth: the whole part in units and
/// the decimals in parts of one, with a minus in front below 0.
pub proof fn a_number_reads_as_its_digits(whole: Seq<char>, rest: Seq<char>, places: nat)
    requires
        all_digits(whole),
        whole.len() <= 9,
        all_digits(rest),
        rest.len() <= places,
    ensures
        number(whole, places) == Some((worth(whole) * ten_to(places), false)),
        number(whole + seq!['.'] + rest, places) == Some(
            (
                worth(whole) * ten_to(places) + worth(rest) * ten_to((places - rest.len()) as nat),
                false,
            ),
        ),
        number(seq!['-'] + whole, places) == Some(
            (-(worth(whole) * ten_to(places)), worth(whole) * ten_to(places) == 0),
        ),
{
    assert(is_digit(whole[0]));
    first_is_there(whole, '.', whole.len() as int);
    assert(whole.take(whole.len() as int) =~= whole);
    let text = whole + seq!['.'] + rest;
    assert forall|i: int| 0 <= i < whole.len() implies text[i] != '.' by {
        assert(is_digit(whole[i]));
    }
    first_is_there(text, '.', whole.len() as int);
    assert(text.take(whole.len() as int) =~= whole);
    assert(text.skip(whole.len() as int + 1) =~= rest);
    assert(text[0] == whole[0]);
    let minus = seq!['-'] + whole;
    assert(minus.skip(1) =~= whole);
    assert forall|i: int| 0 <= i < whole.len() implies whole[i] != '.' by {
        assert(is_digit(whole[i]));
    }
}

/// White space parts words, wherever and however much of it there is: the
/// words of two texts with a gap between them are the words of the one and
/// then those of the other.
pub proof fn a_gap_parts_words(before: Seq<char>, gap: char, after: Seq<char>)
    requires
        is_gap(gap),
    ensures
        words(before.push(gap) + after) == words(before) + words(after),
        words(Seq::empty()).len() == 0,
{
    a_gap_ends_a_word(before, gap, after);
    let (done, word) = parted(after);
    assert(words(Seq::<char>::empty()) =~= Seq::empty());
    assert(words(before.push(gap) + after) =~= words(before) + words(after));
}

proof fn a_gap_ends_a_word(before: Seq<char>, gap: char, after: Seq<char>)
    requires
        is_gap(gap),
    ensures
        parted(before.push(gap) + after).0 == words(before) + parted(after).0,
        parted(before.push(gap) + after).1 == parted(after).1,
    decreases after.len(),
{
    let whole = before.push(gap) + after;
    if after.len() == 0 {
        assert(whole =~= before.push(gap));
        assert(whole.drop_last() =~= before);
        assert(parted(whole).0 =~= words(before) + parted(after).0);
    } else {
        a_gap_ends_a_word(before, gap, after.drop_last());
        assert(whole.drop_last() =~= before.push(gap) + after.drop_last());
        assert(whole.last() == after.last());
        assert(parted(whole).0 =~= words(before) + parted(after).0);
    }
}

/// A text without white space is one word.
pub proof fn a_text_without_gaps_is_one_word(word: Seq<char>)
    requires
        word.len() > 0,
        forall|i: int| 0 <= i < word.len() ==> !is_gap(#[trigger] word[i]),
    ensures
        words(word) == seq![word],
{
    a_run_goes_on(word);
    assert(words(word) =~= seq![word]);
}

proof fn a_run_goes_on(word: Seq<char>)
    requires
        forall|i: int| 0 <= i < word.len() ==> !is_gap(#[trigger] word[i]),
    ensures
        parted(word).0 == Seq::<Seq<char>>::empty(),
        parted(word).1 == word,
    decreases word.len(),
{
    if word.len() > 0 {
        a_run_goes_on(word.drop_last());
        assert(!is_gap(word[word.len() - 1]));
        assert(word.drop_last().push(word.last()) =~= word);
    } else {
        assert(parted(word).1 =~= word);
    }
}

/// A pair is parted at its first comma, and a word without one is no pair.
pub proof fn a_pair_is_parted_at_its_first_comma(x: Seq<char>, y: Seq<char>)
    requires
        forall|i: int| 0 <= i < x.len() ==> #[trigger] x[i] != ',',
    ensures
        pair(x + seq![','] + y) == Some((x, y)),
        pair(x) is None,
{
    let word = x + seq![','] + y;
    assert forall|i: int| 0 <= i < x.len() implies word[i] != ',' by {
        assert(word[i] == x[i]);
    }
    first_is_there(word, ',', x.len() as int);
    assert(word.take(x.len() as int) =~= x);
    assert(word.skip(x.len() as int + 1) =~= y);
    first_is_there(x, ',', x.len() as int);
}

/// A number is written as short as it can be: a minus only below 0 or for the
/// zero below, no zero in front of other digits, and a point only with
/// decimals behind it, the last of which is no zero.
pub proof fn a_number_is_written_as_short_as_it_can_be(count: int, minus_zero: bool, places: nat)
    ensures
        ({
            let text = written(count, minus_zero, places);
            let minus = count < 0 || count == 0 && minus_zero;
            let from: int = if minus {
                1
            } else {
                0
            };
            let whole = decimal(size_of(count) / ten_to(places));
            &&& minus <==> text[0] == '-'
            &&& text.subrange(from, from + whole.len()) == whole
            &&& size_of(count) % ten_to(places) == 0 ==> text.len() == from + whole.len()
            &&& size_of(count) % ten_to(places) != 0 ==> {
                &&& text.len() > from + whole.len() + 1
                &&& text[from + whole.len() as int] == '.'
                &&& text.last() != '0'
            }
        }),
{
    let text = written(count, minus_zero, places);
    let whole = decimal(size_of(count) / ten_to(places));
    let rest = size_of(count) % ten_to(places);
    let minus = has_minus(count, minus_zero);
    let from: int = if minus {
        1
    } else {
        0
    };
    a_decimal_is_its_number(size_of(count) / ten_to(places));
    ten_to_grows(places);
    assert(is_digit(whole[0]));
    assert(text.subrange(from, from + whole.len()) =~= whole);
    assert(text[from] == whole[0]);
    if rest != 0 {
        the_last_decimal_is_no_zero(rest, places);
        let fraction = decimals(rest, places);
        assert(text.last() == fraction.last());
    }
}

proof fn the_last_decimal_is_no_zero(value: nat, places: nat)
    requires
        0 < value < ten_to(places),
    ensures
        decimals(value, places).len() > 0,
        decimals(value, places).last() != '0',
    decreases places,
{
    if places == 0 {
    } else if value % 10 == 0 {
        assert(ten_to(places) == 10 * ten_to((places - 1) as nat));
        assert(0 < value / 10 < ten_to((places - 1) as nat));
        the_last_decimal_is_no_zero(value / 10, (places - 1) as nat);
    } else {
        assert(padded(value, places).last() == digit(value % 10));
    }
}

} // verus!
