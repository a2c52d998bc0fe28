//! Fixed-point money: amounts are 64-bit integers that stand for a decimal
//! value times 10,000. This module turns decimal text into such amounts and
//! renders them back with exactly four fractional digits.

use vstd::prelude::*;

verus! {

/// Whether `v` can be stored as 64-bit money.
pub open spec fn is_money(v: int) -> bool {
    i64::MIN <= v <= i64::MAX
}

/// The character that writes the digit `d`.
pub open spec fn digit_char(d: int) -> char {
    if d == 0 {
        '0'
    } else if d == 1 {
        '1'
    } else if d == 2 {
        '2'
    } else if d == 3 {
        '3'
    } else if d == 4 {
        '4'
    } else if d == 5 {
        '5'
    } else if d == 6 {
        '6'
    } else if d == 7 {
        '7'
    } else if d == 8 {
        '8'
    } else {
        '9'
    }
}

/// The decimal digits of `n`, most significant first, without leading zeros.
pub open spec fn decimal_digits(n: nat) -> Seq<char>
    decreases n,
{
    if n < 10 {
        seq![digit_char(n as int)]
    } else {
        decimal_digits(n / 10).push(digit_char((n % 10) as int))
    }
}

/// The four digits of a fraction `f` below 10,000, zero-padded on the left.
pub open spec fn fraction_digits(f: nat) -> Seq<char> {
    seq![
        digit_char((f / 1000) as int),
        digit_char((f / 100 % 10) as int),
        digit_char((f / 10 % 10) as int),
        digit_char((f % 10) as int),
    ]
}

/// The magnitude of `v`.
pub open spec fn magnitude(v: int) -> nat {
    if v < 0 {
        (-v) as nat
    } else {
        v as nat
    }
}

/// The text of an amount: a minus sign if it is negative, the whole part of
/// its magnitude, a point, and the four digits of the fraction.
pub open spec fn format_spec(v: int) -> Seq<char> {
    let sign = if v < 0 {
        seq!['-']
    } else {
        Seq::empty()
    };
    sign + decimal_digits(magnitude(v) / 10000) + seq!['.'] + fraction_digits(magnitude(v) % 10000)
}

/// Whether `c` is one of the ten decimal digits.
pub open spec fn is_digit(c: char) -> bool {
    '0' <= c && c <= '9'
}

/// The number that the digit `c` writes.
pub open spec fn digit_value(c: char) -> nat {
    (c as u32 - '0' as u32) as nat
}

/// Whether `s` holds decimal digits only.
pub open spec fn all_digits(s: Seq<char>) -> bool {
    forall|i: int| 0 <= i < s.len() ==> is_digit(#[trigger] s[i])
}

/// The number that a string of digits writes, most significant digit first.
pub open spec fn digits_value(s: Seq<char>) -> nat
    decreases s.len(),
{
    if s.len() == 0 {
        0
    } else {
        digits_value(s.drop_last()) * 10 + digit_value(s.last())
    }
}

/// Whether `s` starts with a plus or a minus sign.
pub open spec fn has_sign(s: Seq<char>) -> bool {
    s.len() > 0 && (s[0] == '-' || s[0] == '+')
}

/// What `s` denotes as an integer: an optional sign, then one or more
/// digits, the whole within the range of 64-bit money. Anything else denotes
/// nothing.
pub open spec fn integer_value(s: Seq<char>) -> Option<int> {
    let body = if has_sign(s) {
        s.skip(1)
    } else {
        s
    };
    let value = if has_sign(s) && s[0] == '-' {
        -(digits_value(body) as int)
    } else {
        digits_value(body) as int
    };
    if body.len() > 0 && all_digits(body) && is_money(value) {
        Some(value)
    } else {
        None
    }
}

/// The part of an amount's text that counts, once four zeros are put behind
/// it: all of it where the text has no point, else what stands before the
/// first point, the point, and the four characters behind it.
pub open spec fn significant(text: Seq<char>) -> Seq<char> {
    let padded = text + seq!['0', '0', '0', '0'];
    match text.index_of_first('.') {
        Some(point) => padded.take(point + 5),
        None => padded,
    }
}

/// The amount that a decimal text denotes: its significant part, read
/// without the points as an integer; zero where that is no integer.
pub open spec fn parse_spec(text: Seq<char>) -> int {
    match integer_value(significant(text).filter(|c: char| c != '.')) {
        Some(value) => value,
        None => 0,
    }
}

/// A string of digits is worth at least as much as each of its prefixes.
proof fn lemma_digits_value_grows(s: Seq<char>, k: int)
    requires
        0 <= k <= s.len(),
    ensures
        digits_value(s.take(k)) <= digits_value(s),
    decreases s.len(),
{
    if k == s.len() {
        assert(s.take(k) == s);
    } else {
        assert(s.drop_last().take(k) == s.take(k));
        lemma_digits_value_grows(s.drop_last(), k);
    }
}

/// The characters of `text`, one by one.
fn chars_of(text: &str) -> (chars: Vec<char>)
    ensures
        chars@ == text@,
{
    let mut chars: Vec<char> = Vec::new();
    for c in it: text.chars()
        invariant
            it.seq() == text@,
            chars@ == text@.take(it.index() as int),
    {
        chars.push(c);
    }
    chars
}

/// Reads an optional sign and a run of digits as a 64-bit integer.
fn integer_of(s: &Vec<char>) -> (value: Option<i64>)
    ensures
        match value {
            Some(v) => integer_value(s@) == Some(v as int),
            None => integer_value(s@) is None,
        },
{
    let n = s.len();
    if n == 0 {
        return None;
    }
    let negative = s[0] == '-';
    let start: usize = if negative || s[0] == '+' {
        1
    } else {
        0
    };
    if start == n {
        return None;
    }
    let ghost body = s@.skip(start as int);
    let limit: u64 = if negative {
        0x8000_0000_0000_0000
    } else {
        0x7fff_ffff_ffff_ffff
    };
    let mut size: u64 = 0;
    let mut i: usize = start;
    while i < n
        invariant
            start <= i <= n,
            n == s.len(),
            start == (if has_sign(s@) {
                1int
            } else {
                0int
            }),
            negative == (s@[0] == '-'),
            limit == (if negative {
                0x8000_0000_0000_0000u64
            } else {
                0x7fff_ffff_ffff_ffffu64
            }),
            body == s@.skip(start as int),
            s@.skip(0) == s@,
            all_digits(body.take(i - start)),
            size == digits_value(body.take(i - start)),
            size <= limit,
        decreases n - i,
    {
        let c = s[i];
        if !('0' <= c && c <= '9') {
            return None;
        }
        let digit = (c as u32 - '0' as u32) as u64;
        let next = size as u128 * 10 + digit as u128;
        proof {
            assert(body.take(i - start + 1).drop_last() == body.take(i - start));
        }
        if next > limit as u128 {
            proof {
                lemma_digits_value_grows(body, i - start + 1);
            }
            return None;
        }
        size = next as u64;
        i = i + 1;
    }
    assert(body.take(i - start) == body);
    if negative {
        if size == 0x8000_0000_0000_0000 {
            Some(i64::MIN)
        } else {
            Some(-(size as i64))
        }
    } else {
        Some(size as i64)
    }
}

/// Reads a decimal text with up to four fractional digits as an amount:
/// `12` is 120000, `12.5` is 125000 and `12.3456` is 123456. Fractional
/// digits beyond the fourth are dropped. A text that cannot be read is worth
/// zero.
pub fn parse(text: &str) -> (money: i64)
    ensures
        money as int == parse_spec(text@),
{
    let mut padded = chars_of(text);
    let length = padded.len();
    padded.push('0');
    padded.push('0');
    padded.push('0');
    padded.push('0');
    let ghost point = text@.index_of_first('.');
    proof {
        text@.index_of_first_ensures('.');
    }
    let mut end: usize = padded.len();
    let mut i: usize = 0;
    while i < length
        invariant_except_break
            i <= length,
            end == padded.len(),
            forall|j: int| 0 <= j < i ==> text@[j] != '.',
        invariant
            length == text@.len(),
            padded@ == text@ + seq!['0', '0', '0', '0'],
            point == text@.index_of_first('.'),
            point is None ==> !text@.contains('.'),
            point is Some ==> 0 <= point->0 < length && text@[point->0] == '.',
            point is Some ==> forall|j: int| 0 <= j < point->0 ==> text@[j] != '.',
        ensures
            end <= padded.len(),
            padded@.take(end as int) == significant(text@),
        decreases length - i,
    {
        if padded[i] == '.' {
            end = i + 5;
            break;
        }
        i = i + 1;
    }
    let ghost kept = |c: char| c != '.';
    let mut digits: Vec<char> = Vec::new();
    let mut j: usize = 0;
    proof {
        padded@.take(0).lemma_filter_len(kept);
    }
    while j < end
        invariant
            j <= end <= padded.len(),
            kept == (|c: char| c != '.'),
            digits@ == padded@.take(j as int).filter(kept),
        decreases end - j,
    {
        proof {
            assert(padded@.take(j + 1) == padded@.take(j as int).push(padded@[j as int]));
            padded@.take(j as int).lemma_filter_push(padded@[j as int], kept);
        }
        if padded[j] != '.' {
            digits.push(padded[j]);
        }
        j = j + 1;
    }
    match integer_of(&digits) {
        Some(value) => value,
        None => 0,
    }
}

/// Reads the amount field of a row. An absent field has no amount, which is
/// not the same as an amount of zero.
pub fn parse_amount(text: Option<&str>) -> (money: Option<i64>)
    ensures
        match money {
            Some(m) => text is Some && m as int == parse_spec(text->0@),
            None => text is None,
        },
{
    match text {
        Some(text) => Some(parse(text)),
        None => None,
    }
}

/// Appends the character of one digit.
fn push_digit(text: &mut String, d: u64)
    requires
        d < 10,
    ensures
        final(text)@ == old(text)@.push(digit_char(d as int)),
{
    proof {
        reveal_strlit("0");
        reveal_strlit("1");
        reveal_strlit("2");
        reveal_strlit("3");
        reveal_strlit("4");
        reveal_strlit("5");
        reveal_strlit("6");
        reveal_strlit("7");
        reveal_strlit("8");
        reveal_strlit("9");
    }
    let digit = if d == 0 {
        "0"
    } else if d == 1 {
        "1"
    } else if d == 2 {
        "2"
    } else if d == 3 {
        "3"
    } else if d == 4 {
        "4"
    } else if d == 5 {
        "5"
    } else if d == 6 {
        "6"
    } else if d == 7 {
        "7"
    } else if d == 8 {
        "8"
    } else {
        "9"
    };
    text.append(digit);
}

/// Appends the decimal digits of `n`.
pub fn push_decimal(text: &mut String, n: u64)
    ensures
        final(text)@ == old(text)@ + decimal_digits(n as nat),
    decreases n,
{
    if n >= 10 {
        push_decimal(text, n / 10);
    }
    push_digit(text, n % 10);
}

/// Renders an amount with four fractional digits, as in `-1.5000`.
pub fn format_amount(money: i64) -> (text: String)
    ensures
        text@ == format_spec(money as int),
{
    let mut text = String::new();
    let size: u64 = if money < 0 {
        proof {
            reveal_strlit("-");
        }
        text.append("-");
        ((-(money + 1)) as u64) + 1
    } else {
        money as u64
    };
    push_decimal(&mut text, size / 10000);
    proof {
        reveal_strlit(".");
    }
    text.append(".");
    let fraction = size % 10000;
    push_digit(&mut text, fraction / 1000);
    push_digit(&mut text, fraction / 100 % 10);
    push_digit(&mut text, fraction / 10 % 10);
    push_digit(&mut text, fraction % 10);
    text
}

} // verus!
