//! Decimal numerals: how a number is written, and which number a text writes.

use vstd::prelude::*;
use vstd::string::*;

verus! {

/// The character that writes the digit `d`.
pub open spec fn digit_char(d: nat) -> char {
    if d == 0 {
        '0'
    } else if d == 1 {
        '1'
    } else if d == 2 {
        '2'
    } else if d == 3 {
        '3'
    } else if d == 4 {
        '4'
    } else if d == 5 {
        '5'
    } else if d == 6 {
        '6'
    } else if d == 7 {
        '7'
    } else if d == 8 {
        '8'
    } else {
        '9'
    }
}

/// Whether `c` is one of the ten decimal digits.
pub open spec fn is_digit(c: char) -> bool {
    c == '0' || c == '1' || c == '2' || c == '3' || c == '4' || c == '5' || c == '6' || c == '7'
        || c == '8' || c == '9'
}

/// The digit that `c` writes; 0 for any other character.
pub open spec fn digit_value(c: char) -> nat {
    if c == '1' {
        1
    } else if c == '2' {
        2
    } else if c == '3' {
        3
    } else if c == '4' {
        4
    } else if c == '5' {
        5
    } else if c == '6' {
        6
    } else if c == '7' {
        7
    } else if c == '8' {
        8
    } else if c == '9' {
        9
    } else {
        0
    }
}

/// The decimal numeral of `n`, most significant digit first, without leading zeros.
pub open spec fn decimal(n: nat) -> Seq<char>
    decreases n,
{
    if n < 10 {
        seq![digit_char(n)]
    } else {
        decimal(n / 10).push(digit_char(n % 10))
    }
}

/// Whether every character of `s` is a decimal digit.
pub open spec fn all_digits(s: Seq<char>) -> bool {
    forall|i: int| 0 <= i < s.len() ==> is_digit(#[trigger] s[i])
}

/// The number that the digits of `s` write, most significant first.
pub open spec fn digits_value(s: Seq<char>) -> nat
    decreases s.len(),
{
    if s.len() == 0 {
        0
    } else {
        digits_value(s.drop_last()) * 10 + digit_value(s.last())
    }
}

/// Whether `s` is a numeral: at least one character, all of them digits.
pub open spec fn is_numeral(s: Seq<char>) -> bool {
    s.len() > 0 && all_digits(s)
}

/// A numeral's value does not shrink as digits are appended.
pub proof fn lemma_digits_value_prefix(s: Seq<char>, k: int)
    requires
        0 <= k <= s.len(),
    ensures
        digits_value(s.subrange(0, k)) <= digits_value(s),
    decreases s.len() - k,
{
    if k == s.len() {
        assert(s.subrange(0, k) =~= s);
    } else {
        lemma_digits_value_prefix(s, k + 1);
        let t = s.subrange(0, k + 1);
        assert(t.drop_last() =~= s.subrange(0, k));
    }
}

/// The one-character text of a digit; that of nine for anything above it.
pub fn digit_text(d: u8) -> (text: &'static str)
    ensures
        text@ == seq![digit_char(d as nat)],
{
    proof {
        reveal_strlit("0");
        reveal_strlit("1");
        reveal_strlit("2");
        reveal_strlit("3");
        reveal_strlit("4");
        reveal_strlit("5");
        reveal_strlit("6");
        reveal_strlit("7");
        reveal_strlit("8");
        reveal_strlit("9");
    }
    let text = if d == 0 {
        "0"
    } else if d == 1 {
        "1"
    } else if d == 2 {
        "2"
    } else if d == 3 {
        "3"
    } else if d == 4 {
        "4"
    } else if d == 5 {
        "5"
    } else if d == 6 {
        "6"
    } else if d == 7 {
        "7"
    } else if d == 8 {
        "8"
    } else {
        "9"
    };
    assert(text@ =~= seq![digit_char(d as nat)]);
    text
}

/// Writes `n` as a decimal numeral.
pub fn decimal_text(n: u128) -> (text: String)
    ensures
        text@ == decimal(n as nat),
    decreases n,
{
    if n < 10 {
        let text = String::from_str(digit_text(n as u8));
        text
    } else {
        let mut text = decimal_text(n / 10);
        text.append(digit_text((n % 10) as u8));
        assert(text@ =~= decimal(n as nat));
        text
    }
}

/// The digit that the character writes, if it is a digit.
pub fn digit_of(c: char) -> (digit: Option<u8>)
    ensures
        digit is Some <==> is_digit(c),
        digit matches Some(d) ==> d < 10 && d as nat == digit_value(c),
{
    if c == '0' {
        Some(0)
    } else if c == '1' {
        Some(1)
    } else if c == '2' {
        Some(2)
    } else if c == '3' {
        Some(3)
    } else if c == '4' {
        Some(4)
    } else if c == '5' {
        Some(5)
    } else if c == '6' {
        Some(6)
    } else if c == '7' {
        Some(7)
    } else if c == '8' {
        Some(8)
    } else if c == '9' {
        Some(9)
    } else {
        None
    }
}

/// Reads the numeral that `text` holds from position `from` on. `None` when the text is
/// shorter than that, when those characters are no numeral, or when its value does not
/// fit in 128 bits.
pub fn parse_numeral(text: &str, from: usize) -> (value: Option<u128>)
    ensures
        value is Some <==> from <= text@.len() && is_numeral(text@.skip(from as int))
            && digits_value(text@.skip(from as int)) <= u128::MAX,
        value matches Some(v) ==> v as nat == digits_value(text@.skip(from as int)),
{
    let len: usize = text.unicode_len();
    if from >= len {
        return None;
    }
    let ghost s = text@.skip(from as int);
    let mut acc: u128 = 0;
    let mut i: usize = from;
    while i < len
        invariant
            from <= i <= len,
            len == text@.len(),
            s == text@.skip(from as int),
            all_digits(s.subrange(0, i - from)),
            acc as nat == digits_value(s.subrange(0, i - from)),
        decreases len - i,
    {
        let c: char = text.get_char(i);
        assert(c == s[i - from]);
        let ghost next = s.subrange(0, i - from + 1);
        assert(next.drop_last() =~= s.subrange(0, i - from));
        assert(next.last() == c);
        match digit_of(c) {
            None => {
                assert(!all_digits(s));
                return None;
            },
            Some(d) => {
                proof {
                    lemma_digits_value_prefix(s, i - from + 1);
                }
                let shifted: u128 = match acc.checked_mul(10) {
                    Some(v) => v,
                    None => {
                        return None;
                    },
                };
                acc = match shifted.checked_add(d as u128) {
                    Some(v) => v,
                    None => {
                        return None;
                    },
                };
                assert forall|j: int| 0 <= j < next.len() implies is_digit(#[trigger] next[j]) by {
                    if j < next.len() - 1 {
                        assert(next[j] == s.subrange(0, i - from)[j]);
                    }
                }
            },
        }
        i += 1;
    }
    assert(s.subrange(0, i - from) =~= s);
    Some(acc)
}

/// Whether `text` ends with `suffix`.
pub open spec fn has_suffix(text: Seq<char>, suffix: Seq<char>) -> bool {
    suffix.len() <= text.len() && text.subrange(text.len() - suffix.len(), text.len() as int)
        == suffix
}

/// `text` without `suffix` at its end, where it ends with it; `text` itself otherwise.
pub open spec fn without_suffix(text: Seq<char>, suffix: Seq<char>) -> Seq<char> {
    if has_suffix(text, suffix) {
        text.subrange(0, text.len() - suffix.len())
    } else {
        text
    }
}

/// Takes `suffix` from the end of `text`, where it stands there.
pub fn strip_suffix<'a>(text: &'a str, suffix: &str) -> (stripped: &'a str)
    ensures
        stripped@ == without_suffix(text@, suffix@),
{
    let len: usize = text.unicode_len();
    let tail: usize = suffix.unicode_len();
    if tail > len {
        return text;
    }
    let start: usize = len - tail;
    let mut i: usize = 0;
    while i < tail
        invariant
            0 <= i <= tail,
            tail == suffix@.len(),
            len == text@.len(),
            start == len - tail,
            forall|j: int| 0 <= j < i ==> text@[start + j] == suffix@[j],
        decreases tail - i,
    {
        if text.get_char(start + i) != suffix.get_char(i) {
            assert(text@.subrange(start as int, len as int)[i as int] != suffix@[i as int]);
            return text;
        }
        i += 1;
    }
    assert(text@.subrange(start as int, len as int) =~= suffix@);
    text.substring_char(0, start)
}

} // verus!
