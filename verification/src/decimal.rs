//! Decimal texts: what a well-formed amount text is worth, its canonical
//! form, and the proof that rendering what was read gives that form.

use vstd::arithmetic::div_mod::lemma_fundamental_div_mod_converse;
use vstd::prelude::*;
use crate::amount::{
    all_digits, decimal_digits, digit_char, digit_value, digits_value, format_spec,
    fraction_digits, has_sign, is_digit, is_money, magnitude, parse_spec, significant,
};

verus! {

/// Whether a decimal text starts with a minus sign.
pub open spec fn is_negative(text: Seq<char>) -> bool {
    text.len() > 0 && text[0] == '-'
}

/// The digits of a decimal text before its point, without the sign.
pub open spec fn whole_part(text: Seq<char>) -> Seq<char> {
    let start = if has_sign(text) {
        1int
    } else {
        0int
    };
    match text.index_of_first('.') {
        Some(point) => text.subrange(start, point),
        None => text.skip(start),
    }
}

/// The digits of a decimal text behind its point; none where it has no point.
pub open spec fn fraction_part(text: Seq<char>) -> Seq<char> {
    match text.index_of_first('.') {
        Some(point) => text.skip(point + 1),
        None => Seq::empty(),
    }
}

/// A decimal text: an optional sign, digits, and optionally a point with up
/// to four digits behind it. There is at least one digit, before the point
/// or behind it.
pub open spec fn is_decimal(text: Seq<char>) -> bool {
    &&& all_digits(whole_part(text))
    &&& all_digits(fraction_part(text))
    &&& fraction_part(text).len() <= 4
    &&& whole_part(text).len() + fraction_part(text).len() > 0
}

/// A fraction of up to four digits, filled up with zeros to four.
pub open spec fn four_digits(fraction: Seq<char>) -> Seq<char> {
    (fraction + seq!['0', '0', '0', '0']).take(4)
}

/// The amount that a decimal text stands for: its value times 10,000.
pub open spec fn decimal_value(text: Seq<char>) -> int {
    let size = digits_value(whole_part(text)) * 10000 + digits_value(
        four_digits(fraction_part(text)),
    );
    if is_negative(text) {
        -size
    } else {
        size as int
    }
}

/// The canonical rendering of a decimal text: a minus sign if the value is
/// below zero, the whole part without leading zeros (a single zero where
/// nothing else is left), a point, and the fraction with exactly four
/// digits.
pub open spec fn canonical(text: Seq<char>) -> Seq<char> {
    let sign = if decimal_value(text) < 0 {
        seq!['-']
    } else {
        Seq::empty()
    };
    sign + decimal_digits(digits_value(whole_part(text))) + seq!['.'] + four_digits(
        fraction_part(text),
    )
}

/// Appending one digit multiplies what a string of digits is worth by ten
/// and adds the digit.
proof fn lemma_digits_value_push(s: Seq<char>, c: char)
    ensures
        digits_value(s.push(c)) == digits_value(s) * 10 + digit_value(c),
{
    assert(s.push(c).drop_last() == s);
}

/// Four digits appended to a string of digits: the string counts ten
/// thousand times, and the four digits are added.
proof fn lemma_digits_value_append_four(s: Seq<char>, f: Seq<char>)
    requires
        f.len() == 4,
    ensures
        digits_value(s + f) == digits_value(s) * 10000 + digits_value(f),
        digits_value(f) == digit_value(f[0]) * 1000 + digit_value(f[1]) * 100 + digit_value(f[2])
            * 10 + digit_value(f[3]),
{
    let e = Seq::<char>::empty();
    assert(s + f == s.push(f[0]).push(f[1]).push(f[2]).push(f[3]));
    lemma_digits_value_push(s, f[0]);
    lemma_digits_value_push(s.push(f[0]), f[1]);
    lemma_digits_value_push(s.push(f[0]).push(f[1]), f[2]);
    lemma_digits_value_push(s.push(f[0]).push(f[1]).push(f[2]), f[3]);
    assert(f == e.push(f[0]).push(f[1]).push(f[2]).push(f[3]));
    lemma_digits_value_push(e, f[0]);
    lemma_digits_value_push(e.push(f[0]), f[1]);
    lemma_digits_value_push(e.push(f[0]).push(f[1]), f[2]);
    lemma_digits_value_push(e.push(f[0]).push(f[1]).push(f[2]), f[3]);
}

/// A filter keeps a sequence as it is where every element passes.
proof fn lemma_filter_keeps_all(s: Seq<char>, pred: spec_fn(char) -> bool)
    requires
        forall|i: int| 0 <= i < s.len() ==> pred(#[trigger] s[i]),
    ensures
        s.filter(pred) == s,
    decreases s.len(),
{
    reveal(Seq::filter);
    if s.len() > 0 {
        lemma_filter_keeps_all(s.drop_last(), pred);
    }
}

/// On a decimal text the codec reads the value that the text stands for.
pub proof fn lemma_parse_of_decimal(text: Seq<char>)
    requires
        is_decimal(text),
        is_money(decimal_value(text)),
    ensures
        parse_spec(text) == decimal_value(text),
{
    let kept = |c: char| c != '.';
    let sign = if has_sign(text) {
        seq![text[0]]
    } else {
        Seq::<char>::empty()
    };
    let whole = whole_part(text);
    let fraction = fraction_part(text);
    let four = four_digits(fraction);
    text.index_of_first_ensures('.');
    assert(all_digits(four));
    // What is read is the sign, the whole part and the four-digit fraction.
    let read = significant(text).filter(kept);
    assert(read == sign + whole + four) by {
        match text.index_of_first('.') {
            Some(point) => {
                let head = sign + whole;
                assert(significant(text) == head + seq!['.'] + four);
                Seq::filter_distributes_over_add(head + seq!['.'], four, kept);
                Seq::filter_distributes_over_add(head, seq!['.'], kept);
                lemma_filter_keeps_all(head, kept);
                lemma_filter_keeps_all(four, kept);
                assert(seq!['.'].filter(kept) == Seq::<char>::empty()) by {
                    reveal_with_fuel(Seq::filter, 2);
                }
            },
            None => {
                assert(significant(text) == sign + whole + four);
                lemma_filter_keeps_all(sign + whole + four, kept);
            },
        }
    }
    let body = whole + four;
    assert(has_sign(read) == has_sign(text));
    assert((if has_sign(read) {
        read.skip(1)
    } else {
        read
    }) == body);
    lemma_digits_value_append_four(whole, four);
}

/// A digit is the character of its own value.
proof fn lemma_digit_char_of_value(c: char)
    requires
        is_digit(c),
    ensures
        digit_value(c) < 10,
        digit_char(digit_value(c) as int) == c,
{
}

/// The four decimal places of a number below ten thousand.
proof fn lemma_four_places(a: nat, b: nat, c: nat, d: nat)
    requires
        a < 10,
        b < 10,
        c < 10,
        d < 10,
    ensures
        (a * 1000 + b * 100 + c * 10 + d) < 10000,
        (a * 1000 + b * 100 + c * 10 + d) / 1000 == a,
        (a * 1000 + b * 100 + c * 10 + d) / 100 % 10 == b,
        (a * 1000 + b * 100 + c * 10 + d) / 10 % 10 == c,
        (a * 1000 + b * 100 + c * 10 + d) % 10 == d,
{
    let f = (a * 1000 + b * 100 + c * 10 + d) as int;
    lemma_fundamental_div_mod_converse(f, 1000, a as int, (b * 100 + c * 10 + d) as int);
    lemma_fundamental_div_mod_converse(f, 100, (a * 10 + b) as int, (c * 10 + d) as int);
    lemma_fundamental_div_mod_converse((a * 10 + b) as int, 10, a as int, b as int);
    lemma_fundamental_div_mod_converse(f, 10, (a * 100 + b * 10 + c) as int, d as int);
    lemma_fundamental_div_mod_converse(
        (a * 100 + b * 10 + c) as int,
        10,
        (a * 10 + b) as int,
        c as int,
    );
}

/// Four digits are the rendering of what they are worth.
proof fn lemma_fraction_digits_of_four(four: Seq<char>)
    requires
        four.len() == 4,
        all_digits(four),
    ensures
        digits_value(four) < 10000,
        fraction_digits(digits_value(four)) == four,
{
    lemma_digits_value_append_four(Seq::empty(), four);
    lemma_digit_char_of_value(four[0]);
    lemma_digit_char_of_value(four[1]);
    lemma_digit_char_of_value(four[2]);
    lemma_digit_char_of_value(four[3]);
    lemma_four_places(
        digit_value(four[0]),
        digit_value(four[1]),
        digit_value(four[2]),
        digit_value(four[3]),
    );
}

/// A string of digits that starts with a digit other than zero is worth at
/// least one.
proof fn lemma_digits_value_positive(s: Seq<char>)
    requires
        s.len() > 0,
        all_digits(s),
        s[0] != '0',
    ensures
        digits_value(s) >= 1,
    decreases s.len(),
{
    if s.len() > 1 {
        lemma_digits_value_positive(s.drop_last());
    }
}

/// A string of digits without a leading zero is the decimal writing of what
/// it is worth.
pub proof fn lemma_decimal_digits_of_value(s: Seq<char>)
    requires
        s.len() > 0,
        all_digits(s),
        s.len() == 1 || s[0] != '0',
    ensures
        decimal_digits(digits_value(s)) == s,
    decreases s.len(),
{
    let front = s.drop_last();
    lemma_digit_char_of_value(s.last());
    if s.len() == 1 {
        assert(digits_value(front) == 0);
    } else {
        assert(all_digits(front));
        lemma_digits_value_positive(front);
        lemma_decimal_digits_of_value(front);
        let v = digits_value(s);
        lemma_fundamental_div_mod_converse(
            v as int,
            10,
            digits_value(front) as int,
            digit_value(s.last()) as int,
        );
    }
}

/// Reading a decimal text of up to four fractional digits and rendering the
/// amount gives the text in canonical form.
pub proof fn lemma_format_of_parse_is_canonical(text: Seq<char>)
    requires
        is_decimal(text),
        is_money(decimal_value(text)),
    ensures
        format_spec(parse_spec(text)) == canonical(text),
{
    lemma_parse_of_decimal(text);
    let four = four_digits(fraction_part(text));
    lemma_fraction_digits_of_four(four);
    let w = digits_value(whole_part(text));
    let f = digits_value(four);
    let size = magnitude(decimal_value(text));
    lemma_fundamental_div_mod_converse(size as int, 10000, w as int, f as int);
}

/// A decimal text whose whole part has no leading zero, and which is not a
/// negative zero, is in canonical form once its fraction is filled up to
/// four digits.
pub proof fn lemma_canonical_keeps_digits(text: Seq<char>)
    requires
        is_decimal(text),
        whole_part(text).len() == 1 || (whole_part(text).len() > 1 && whole_part(text)[0] != '0'),
        is_negative(text) ==> decimal_value(text) != 0,
    ensures
        canonical(text) == (if is_negative(text) {
            seq!['-']
        } else {
            Seq::empty()
        }) + whole_part(text) + seq!['.'] + four_digits(fraction_part(text)),
{
    lemma_decimal_digits_of_value(whole_part(text));
}

/// The decimal writing of a number is a string of digits that is worth the
/// number.
pub proof fn lemma_value_of_decimal_digits(n: nat)
    ensures
        decimal_digits(n).len() > 0,
        all_digits(decimal_digits(n)),
        digits_value(decimal_digits(n)) == n,
    decreases n,
{
    if n < 10 {
        lemma_digits_value_push(Seq::empty(), digit_char(n as int));
    } else {
        lemma_value_of_decimal_digits(n / 10);
        lemma_digits_value_push(decimal_digits(n / 10), digit_char((n % 10) as int));
    }
}

/// The four digits of a fraction are worth the fraction.
proof fn lemma_value_of_fraction_digits(f: nat)
    requires
        f < 10000,
    ensures
        all_digits(fraction_digits(f)),
        digits_value(fraction_digits(f)) == f,
{
    let four = fraction_digits(f);
    lemma_digits_value_append_four(Seq::empty(), four);
    assert(digit_value(four[0]) == f / 1000);
    assert(digit_value(four[1]) == f / 100 % 10);
    assert(digit_value(four[2]) == f / 10 % 10);
}

/// Reading the rendering of an amount gives the amount back.
pub proof fn lemma_parse_of_format(v: int)
    requires
        is_money(v),
    ensures
        is_decimal(format_spec(v)),
        parse_spec(format_spec(v)) == v,
{
    let m = magnitude(v);
    let sign = if v < 0 {
        seq!['-']
    } else {
        Seq::<char>::empty()
    };
    let whole = decimal_digits(m / 10000);
    let four = fraction_digits(m % 10000);
    let text = format_spec(v);
    lemma_value_of_decimal_digits(m / 10000);
    lemma_value_of_fraction_digits(m % 10000);
    let point = sign.len() + whole.len();
    assert(text[point as int] == '.');
    assert forall|j: int| 0 <= j < point implies text[j] != '.' by {
        if j >= sign.len() {
            assert(is_digit(whole[j - sign.len()]));
        }
    }
    text.index_of_first_ensures('.');
    assert(text.index_of_first('.') == Some(point as int));
    assert(has_sign(text) == (v < 0));
    assert(whole_part(text) == whole);
    assert(fraction_part(text) == four);
    assert(four_digits(four) == four);
    lemma_parse_of_decimal(text);
}

} // verus!
