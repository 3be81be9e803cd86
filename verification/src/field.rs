//! Elements of the prime field that a constraint system is over, as constants: residues
//! of natural numbers modulo the field's modulus.

use crate::bignum::{
    big_add, big_from_decimal, big_less, big_modinv, big_mul, big_rem, big_sub, big_to_decimal,
    bytes_value, decimal_digits, decimal_only, is_inverse, radix_value,
};
use crate::text::{
    decimal, digit_char, digit_of, digit_text, digit_value, digits_value, is_digit, is_numeral,
    strip_suffix, without_suffix,
};
use vstd::arithmetic::div_mod::*;
use vstd::arithmetic::mul::*;
use vstd::prelude::*;
use vstd::string::*;

verus! {

/// The sum of two field elements.
pub open spec fn field_sum(a: nat, b: nat, p: nat) -> nat {
    (a + b) % p
}

/// The difference of two field elements.
pub open spec fn field_difference(a: nat, b: nat, p: nat) -> nat {
    ((a as int - b as int) % (p as int)) as nat
}

/// The product of two field elements.
pub open spec fn field_product(a: nat, b: nat, p: nat) -> nat {
    (a * b) % p
}

/// Whether `b` has an inverse modulo `p`.
pub open spec fn invertible(b: nat, p: nat) -> bool {
    exists|x: nat| is_inverse(b, x, p)
}

/// The inverse of `b` modulo `p`, where it has one.
pub open spec fn field_inverse(b: nat, p: nat) -> nat {
    choose|x: nat| is_inverse(b, x, p)
}

/// The quotient of two field elements: `a` times the inverse of `b`, where `b` has one.
pub open spec fn field_quotient(a: nat, b: nat, p: nat) -> Option<nat> {
    if invertible(b, p) {
        Some((a * field_inverse(b, p)) % p)
    } else {
        None
    }
}

/// The field element that a literal writes: a numeral, or a minus sign and a numeral,
/// with or without the keyword `field` behind it.
pub open spec fn field_literal(text: Seq<char>, p: nat) -> Option<nat> {
    field_number(without_suffix(text, "field"@), p)
}

/// The field element that a numeral writes, or a minus sign and a numeral.
pub open spec fn field_number(text: Seq<char>, p: nat) -> Option<nat> {
    if text.len() > 0 && text[0] == '-' {
        if is_numeral(text.skip(1)) {
            Some(field_difference(0, digits_value(text.skip(1)), p))
        } else {
            None
        }
    } else if is_numeral(text) {
        Some(digits_value(text) % p)
    } else {
        None
    }
}

/// A residue has at most one inverse.
pub proof fn lemma_inverse_unique(a: nat, x: nat, y: nat, m: nat)
    requires
        m > 0,
        is_inverse(a, x, m),
        is_inverse(a, y, m),
    ensures
        x == y,
{
    let m_int = m as int;
    let x_int = x as int;
    let y_int = y as int;
    let a_int = a as int;
    if m == 1 {
    } else {
        assert(1int % m_int == 1) by {
            lemma_small_mod(1, m);
        }
        assert((a_int * x_int) % m_int == 1 && (a_int * y_int) % m_int == 1);
        // x == x * (a * y) == (x * a) * y == y, all modulo m
        assert((x_int * ((a_int * y_int) % m_int)) % m_int == (x_int * (a_int * y_int)) % m_int) by {
            lemma_mul_mod_noop_right(x_int, a_int * y_int, m_int);
        }
        assert((((x_int * a_int) % m_int) * y_int) % m_int == ((x_int * a_int) * y_int) % m_int) by {
            lemma_mul_mod_noop_left(x_int * a_int, y_int, m_int);
        }
        assert(x_int * (a_int * y_int) == (x_int * a_int) * y_int) by {
            lemma_mul_is_associative(x_int, a_int, y_int);
        }
        assert(x_int * a_int == a_int * x_int) by {
            lemma_mul_is_commutative(x_int, a_int);
        }
        assert(x_int * 1 == x_int && 1 * y_int == y_int);
        assert(x_int % m_int == x_int) by {
            lemma_small_mod(x, m);
        }
        assert(y_int % m_int == y_int) by {
            lemma_small_mod(y, m);
        }
    }
}

/// The modulus of a prime field: a number of at least two.
#[derive(Debug, PartialEq, Eq)]
pub struct Modulus {
    bytes: Vec<u8>,
}

impl View for Modulus {
    type V = nat;

    closed spec fn view(&self) -> nat {
        bytes_value(self.bytes@)
    }
}

impl Modulus {
    #[verifier::type_invariant]
    spec fn well_formed(self) -> bool {
        bytes_value(self.bytes@) >= 2
    }

    /// The modulus that big-endian bytes hold, unless it is below two.
    pub fn new(bytes: Vec<u8>) -> (modulus: Option<Modulus>)
        ensures
            modulus is Some <==> bytes_value(bytes@) >= 2,
            modulus matches Some(m) ==> m@ == bytes_value(bytes@),
    {
        let mut one: Vec<u8> = Vec::new();
        one.push(1);
        proof {
            reveal_with_fuel(radix_value, 2);
            assert(one@.drop_last() =~= Seq::<u8>::empty());
            assert(bytes_value(one@) == 1);
        }
        if big_less(&one, &bytes) {
            Some(Modulus { bytes })
        } else {
            None
        }
    }

    /// The modulus that a decimal numeral writes, unless it is below two.
    pub fn from_decimal(text: &str) -> (modulus: Option<Modulus>)
        ensures
            modulus is Some <==> is_numeral(text@) && digits_value(text@) >= 2,
            modulus matches Some(m) ==> m@ == digits_value(text@),
    {
        match natural_from_text(text, 0) {
            Some(bytes) => {
                assert(text@.skip(0) =~= text@);
                Modulus::new(bytes)
            },
            None => {
                assert(text@.skip(0) =~= text@);
                None
            },
        }
    }

    /// The modulus as big-endian bytes; it is at least two.
    pub fn bytes(&self) -> (bytes: &Vec<u8>)
        ensures
            bytes_value(bytes@) == self@,
            self@ >= 2,
    {
        proof {
            use_type_invariant(self);
        }
        &self.bytes
    }

    /// A copy of the modulus.
    pub fn duplicate(&self) -> (copy: Modulus)
        ensures
            copy@ == self@,
    {
        proof {
            use_type_invariant(self);
        }
        Modulus { bytes: copy_bytes(&self.bytes) }
    }
}

/// A copy of a byte vector.
pub fn copy_bytes(bytes: &Vec<u8>) -> (copy: Vec<u8>)
    ensures
        copy@ == bytes@,
{
    let mut copy: Vec<u8> = Vec::new();
    let mut i: usize = 0;
    while i < bytes.len()
        invariant
            0 <= i <= bytes.len(),
            copy@ == bytes@.subrange(0, i as int),
        decreases bytes.len() - i,
    {
        copy.push(bytes[i]);
        assert(copy@ =~= bytes@.subrange(0, i + 1));
        i += 1;
    }
    assert(bytes@.subrange(0, i as int) =~= bytes@);
    copy
}

/// Digits and the characters that write them have the same value.
pub proof fn lemma_digits_of_text(digits: Seq<u8>, text: Seq<char>)
    requires
        digits.len() == text.len(),
        forall|j: int| 0 <= j < text.len() ==> digits[j] as nat == digit_value(#[trigger] text[j]),
    ensures
        radix_value(digits, 10) == digits_value(text),
    decreases text.len(),
{
    if text.len() > 0 {
        lemma_digits_of_text(digits.drop_last(), text.drop_last());
    }
}

/// The decimal numeral of a number writes its decimal digits, one character each.
pub proof fn lemma_decimal_digits_text(n: nat)
    ensures
        decimal_digits(n).len() == decimal(n).len(),
        decimal_only(decimal_digits(n)),
        forall|j: int|
            0 <= j < decimal(n).len() ==> #[trigger] decimal(n)[j] == digit_char(
                decimal_digits(n)[j] as nat,
            ),
    decreases n,
{
    if n >= 10 {
        lemma_decimal_digits_text(n / 10);
    }
}

/// Reads the numeral that `text` holds from position `from` on, whatever its size.
/// `None` when the text is shorter than that or those characters are no numeral.
pub fn natural_from_text(text: &str, from: usize) -> (number: Option<Vec<u8>>)
    ensures
        number is Some <==> from <= text@.len() && is_numeral(text@.skip(from as int)),
        number matches Some(n) ==> bytes_value(n@) == digits_value(text@.skip(from as int)),
{
    let len: usize = text.unicode_len();
    if from >= len {
        return None;
    }
    let ghost s = text@.skip(from as int);
    let mut digits: Vec<u8> = Vec::new();
    let mut i: usize = from;
    while i < len
        invariant
            from <= i <= len,
            len == text@.len(),
            s == text@.skip(from as int),
            digits.len() == i - from,
            forall|j: int| 0 <= j < i - from ==> is_digit(#[trigger] s[j]),
            forall|j: int| 0 <= j < i - from ==> digits[j] as nat == digit_value(#[trigger] s[j]),
            decimal_only(digits@),
        decreases len - i,
    {
        let c: char = text.get_char(i);
        assert(c == s[i - from]);
        match digit_of(c) {
            None => {
                return None;
            },
            Some(d) => {
                digits.push(d);
            },
        }
        i += 1;
    }
    proof {
        lemma_digits_of_text(digits@, s);
    }
    big_from_decimal(&digits)
}

/// Writes the number that big-endian bytes hold as a decimal numeral.
pub fn natural_text(number: &Vec<u8>) -> (text: String)
    ensures
        text@ == decimal(bytes_value(number@)),
{
    let digits = big_to_decimal(number);
    let ghost n = bytes_value(number@);
    proof {
        lemma_decimal_digits_text(n);
    }
    let mut text = String::new();
    let mut i: usize = 0;
    while i < digits.len()
        invariant
            0 <= i <= digits.len(),
            digits@ == decimal_digits(n),
            digits@.len() == decimal(n).len(),
            decimal_only(digits@),
            forall|j: int|
                0 <= j < decimal(n).len() ==> #[trigger] decimal(n)[j] == digit_char(
                    digits@[j] as nat,
                ),
            text@ == decimal(n).subrange(0, i as int),
        decreases digits.len() - i,
    {
        text.append(digit_text(digits[i]));
        assert(text@ =~= decimal(n).subrange(0, i + 1));
        i += 1;
    }
    assert(decimal(n).subrange(0, i as int) =~= decimal(n));
    text
}

/// The residue of `a` modulo the field's modulus.
pub fn field_reduce(a: &Vec<u8>, modulus: &Modulus) -> (residue: Vec<u8>)
    ensures
        bytes_value(residue@) == bytes_value(a@) % modulus@,
{
    big_rem(a, modulus.bytes())
}

/// Adds two field elements.
pub fn field_add(a: &Vec<u8>, b: &Vec<u8>, modulus: &Modulus) -> (sum: Vec<u8>)
    ensures
        bytes_value(sum@) == field_sum(bytes_value(a@), bytes_value(b@), modulus@),
{
    let sum = big_add(a, b);
    big_rem(&sum, modulus.bytes())
}

/// Subtracts one field element from another.
pub fn field_sub(a: &Vec<u8>, b: &Vec<u8>, modulus: &Modulus) -> (difference: Vec<u8>)
    ensures
        bytes_value(difference@) == field_difference(
            bytes_value(a@),
            bytes_value(b@),
            modulus@,
        ),
{
    let ghost p = modulus@ as int;
    let ghost x = bytes_value(a@) as int;
    let ghost y = bytes_value(b@) as int;
    let left = big_rem(a, modulus.bytes());
    let right = big_rem(b, modulus.bytes());
    let lifted = big_add(&left, modulus.bytes());
    proof {
        lemma_mod_bound(x, p);
        lemma_mod_bound(y, p);
    }
    let gap = big_sub(&lifted, &right);
    let difference = big_rem(&gap, modulus.bytes());
    proof {
        // (x % p + p - y % p) % p == (x - y) % p
        assert((x % p + p - y % p) % p == (x % p - y % p) % p) by {
            lemma_mod_add_multiples_vanish(x % p - y % p, p);
        }
        assert((x % p - y % p) % p == (x - y) % p) by {
            lemma_sub_mod_noop(x, y, p);
        }
        lemma_mod_bound(x - y, p);
    }
    difference
}

/// Multiplies two field elements.
pub fn field_mul(a: &Vec<u8>, b: &Vec<u8>, modulus: &Modulus) -> (product: Vec<u8>)
    ensures
        bytes_value(product@) == field_product(bytes_value(a@), bytes_value(b@), modulus@),
{
    let product = big_mul(a, b);
    big_rem(&product, modulus.bytes())
}

/// Divides one field element by another; `None` when the divisor has no inverse.
pub fn field_div(a: &Vec<u8>, b: &Vec<u8>, modulus: &Modulus) -> (quotient: Option<Vec<u8>>)
    ensures
        quotient is Some <==> invertible(bytes_value(b@), modulus@),
        quotient matches Some(q) ==> Some(bytes_value(q@)) == field_quotient(
            bytes_value(a@),
            bytes_value(b@),
            modulus@,
        ),
{
    match big_modinv(b, modulus.bytes()) {
        None => None,
        Some(inverse) => {
            proof {
                lemma_inverse_unique(
                    bytes_value(b@),
                    bytes_value(inverse@),
                    field_inverse(bytes_value(b@), modulus@),
                    modulus@,
                );
            }
            let product = big_mul(a, &inverse);
            Some(big_rem(&product, modulus.bytes()))
        },
    }
}

/// Whether two numbers are the same field element.
pub fn field_equal(a: &Vec<u8>, b: &Vec<u8>, modulus: &Modulus) -> (equal: bool)
    ensures
        equal == (bytes_value(a@) % modulus@ == bytes_value(b@) % modulus@),
{
    let left = field_reduce(a, modulus);
    let right = field_reduce(b, modulus);
    !big_less(&left, &right) && !big_less(&right, &left)
}

/// Whether the residue of the first number is below the residue of the second.
pub fn field_less(a: &Vec<u8>, b: &Vec<u8>, modulus: &Modulus) -> (less: bool)
    ensures
        less == (bytes_value(a@) % modulus@ < bytes_value(b@) % modulus@),
{
    let left = field_reduce(a, modulus);
    let right = field_reduce(b, modulus);
    big_less(&left, &right)
}

/// Reads a field literal: a numeral, or a minus sign and a numeral, with or without the
/// keyword `field` behind it.
pub fn field_from_text(text: &str, modulus: &Modulus) -> (element: Option<Vec<u8>>)
    ensures
        element is Some <==> field_literal(text@, modulus@) is Some,
        element matches Some(e) ==> Some(bytes_value(e@)) == field_literal(text@, modulus@),
{
    let text = strip_suffix(text, "field");
    let len: usize = text.unicode_len();
    if len > 0 && text.get_char(0) == '-' {
        match natural_from_text(text, 1) {
            None => None,
            Some(n) => {
                let zero: Vec<u8> = Vec::new();
                Some(field_sub(&zero, &n, modulus))
            },
        }
    } else {
        match natural_from_text(text, 0) {
            None => {
                assert(text@.skip(0) =~= text@);
                None
            },
            Some(n) => {
                assert(text@.skip(0) =~= text@);
                Some(field_reduce(&n, modulus))
            },
        }
    }
}

} // verus!
