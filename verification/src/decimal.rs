//! Decimal notation for unsigned integers: reading a count from text and
//! writing one back out.

use vstd::prelude::*;
use vstd::string::StringExecFns;

verus! {

/// Whether `c` is one of the ASCII digits `0` to `9`.
pub open spec fn is_digit(c: char) -> bool {
    48 <= c as u32 <= 57
}

/// The number that the ASCII digit `c` stands for.
pub open spec fn digit_value(c: char) -> nat
    recommends
        is_digit(c),
{
    (c as u32 - 48) as nat
}

/// The ASCII digit that stands for `d`.
pub open spec fn digit_char(d: nat) -> char
    recommends
        d < 10,
{
    if d == 0 {
        '0'
    } else if d == 1 {
        '1'
    } else if d == 2 {
        '2'
    } else if d == 3 {
        '3'
    } else if d == 4 {
        '4'
    } else if d == 5 {
        '5'
    } else if d == 6 {
        '6'
    } else if d == 7 {
        '7'
    } else if d == 8 {
        '8'
    } else {
        '9'
    }
}

/// Whether every character of `s` is an ASCII digit.
pub open spec fn all_digits(s: Seq<char>) -> bool {
    forall|i: int| 0 <= i < s.len() ==> is_digit(#[trigger] s[i])
}

/// The number written by the digits `s`, most significant digit first.
/// The empty sequence stands for zero.
pub open spec fn digits_value(s: Seq<char>) -> nat
    decreases s.len(),
{
    if s.len() == 0 {
        0
    } else {
        digits_value(s.drop_last()) * 10 + digit_value(s.last())
    }
}

/// The digits of `text` once one leading `+` sign, if there is one, is set aside.
pub open spec fn unsigned_digits(text: Seq<char>) -> Seq<char> {
    if text.len() > 0 && text[0] == '+' {
        text.subrange(1, text.len() as int)
    } else {
        text
    }
}

/// The number that `text` denotes as a `usize`: an optional `+` sign, then
/// one or more ASCII digits and nothing else, whose value fits in a `usize`.
/// Any other text denotes no number.
pub open spec fn parsed_unsigned(text: Seq<char>) -> Option<nat> {
    let digits = unsigned_digits(text);
    if digits.len() > 0 && all_digits(digits) && digits_value(digits) <= usize::MAX {
        Some(digits_value(digits))
    } else {
        None
    }
}

/// The decimal notation of `n`, without sign or leading zeros.
pub open spec fn decimal_text(n: nat) -> Seq<char>
    decreases n,
{
    if n < 10 {
        seq![digit_char(n)]
    } else {
        decimal_text(n / 10).push(digit_char(n % 10))
    }
}

/// A prefix of a digit sequence never denotes more than the whole sequence.
proof fn lemma_prefix_value_bounded(s: Seq<char>, k: int)
    requires
        0 <= k <= s.len(),
    ensures
        digits_value(s.take(k)) <= digits_value(s),
    decreases s.len() - k,
{
    if k == s.len() {
        assert(s.take(k) =~= s);
    } else {
        lemma_prefix_value_bounded(s, k + 1);
        let longer = s.take(k + 1);
        assert(longer.drop_last() =~= s.take(k));
        assert(digits_value(longer) == digits_value(s.take(k)) * 10 + digit_value(longer.last()));
    }
}

/// Reads `text` as a `usize` in decimal notation.
pub fn parse_unsigned(text: &str) -> (value: Option<usize>)
    ensures
        match value {
            Some(n) => parsed_unsigned(text@) == Some(n as nat),
            None => parsed_unsigned(text@) is None,
        },
{
    let length: usize = text.unicode_len();
    if length == 0 {
        return None;
    }
    let start: usize = if text.get_char(0) == '+' {
        1
    } else {
        0
    };
    if start == length {
        return None;
    }
    let ghost digits = unsigned_digits(text@);
    assert(digits =~= text@.subrange(start as int, length as int));
    let mut total: usize = 0;
    let mut index: usize = start;
    while index < length
        invariant
            start <= index <= length,
            length == text@.len(),
            digits == unsigned_digits(text@),
            digits == text@.subrange(start as int, length as int),
            all_digits(digits.take(index - start)),
            total == digits_value(digits.take(index - start)),
        decreases length - index,
    {
        let code: u32 = text.get_char(index) as u32;
        let ghost position = index - start;
        assert(digits[position] == text@[index as int]);
        if code < 48 || code > 57 {
            assert(!is_digit(digits[position]));
            return None;
        }
        let digit: usize = (code - 48) as usize;
        let ghost longer = digits.take(position + 1);
        assert(longer.drop_last() =~= digits.take(position));
        assert(longer.last() == digits[position]);
        assert(digits_value(longer) == total * 10 + digit);
        assert(all_digits(longer)) by {
            assert forall|i: int| 0 <= i < longer.len() implies is_digit(#[trigger] longer[i]) by {
                if i < position {
                    assert(longer[i] == digits.take(position)[i]);
                }
            }
        }
        let scaled: usize = match total.checked_mul(10) {
            Some(product) => product,
            None => {
                proof {
                    lemma_prefix_value_bounded(digits, position + 1);
                }
                return None;
            },
        };
        total = match scaled.checked_add(digit) {
            Some(sum) => sum,
            None => {
                proof {
                    lemma_prefix_value_bounded(digits, position + 1);
                }
                return None;
            },
        };
        index = index + 1;
    }
    assert(digits.take(index - start) =~= digits);
    Some(total)
}

/// The one-character text of a single decimal digit.
fn digit_text(d: usize) -> (text: &'static str)
    requires
        d < 10,
    ensures
        text@ == seq![digit_char(d as nat)],
{
    proof {
        reveal_strlit("0");
        reveal_strlit("1");
        reveal_strlit("2");
        reveal_strlit("3");
        reveal_strlit("4");
        reveal_strlit("5");
        reveal_strlit("6");
        reveal_strlit("7");
        reveal_strlit("8");
        reveal_strlit("9");
    }
    let text: &'static str = if d == 0 {
        "0"
    } else if d == 1 {
        "1"
    } else if d == 2 {
        "2"
    } else if d == 3 {
        "3"
    } else if d == 4 {
        "4"
    } else if d == 5 {
        "5"
    } else if d == 6 {
        "6"
    } else if d == 7 {
        "7"
    } else if d == 8 {
        "8"
    } else {
        "9"
    };
    assert(text@ =~= seq![digit_char(d as nat)]);
    text
}

/// Writes `n` in decimal notation.
pub fn format_unsigned(n: usize) -> (text: String)
    ensures
        text@ == decimal_text(n as nat),
    decreases n,
{
    if n < 10 {
        String::from_str(digit_text(n))
    } else {
        let mut text: String = format_unsigned(n / 10);
        text.append(digit_text(n % 10));
        assert(text@ =~= decimal_text((n / 10) as nat).push(digit_char((n % 10) as nat)));
        text
    }
}

/// The decimal notation of a number consists of digits that denote it.
proof fn lemma_decimal_text_denotes(n: nat)
    ensures
        decimal_text(n).len() > 0,
        all_digits(decimal_text(n)),
        digits_value(decimal_text(n)) == n,
    decreases n,
{
    let text = decimal_text(n);
    if n < 10 {
        assert(text.drop_last() =~= Seq::<char>::empty());
        assert(digits_value(text) == digits_value(text.drop_last()) * 10 + digit_value(text.last()));
    } else {
        lemma_decimal_text_denotes(n / 10);
        let front = decimal_text(n / 10);
        assert(text.drop_last() =~= front);
        assert(text.last() == digit_char(n % 10));
        assert forall|i: int| 0 <= i < text.len() implies is_digit(#[trigger] text[i]) by {
            if i < front.len() {
                assert(text[i] == front[i]);
            }
        }
    }
}

/// Reading inverts writing: the decimal notation of every number that a
/// `usize` holds is read back as that number.
pub proof fn lemma_parse_inverts_format(n: nat)
    requires
        n <= usize::MAX,
    ensures
        parsed_unsigned(decimal_text(n)) == Some(n),
{
    lemma_decimal_text_denotes(n);
    let text = decimal_text(n);
    assert(is_digit(text[0]));
    assert(unsigned_digits(text) == text);
}

} // verus!
