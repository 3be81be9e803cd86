//! Natural numbers of any size, held as big-endian bytes. The arithmetic on them is
//! num-bigint's; each function here states what one operation of that crate returns.

use num_bigint::BigUint;
use vstd::prelude::*;

verus! {

/// The number that `digits` write in base `radix`, most significant digit first.
pub open spec fn radix_value(digits: Seq<u8>, radix: nat) -> nat
    decreases digits.len(),
{
    if digits.len() == 0 {
        0
    } else {
        radix_value(digits.drop_last(), radix) * radix + digits.last() as nat
    }
}

/// The number that big-endian bytes hold.
pub open spec fn bytes_value(bytes: Seq<u8>) -> nat {
    radix_value(bytes, 256)
}

/// The decimal digits of `n`, most significant first, without leading zeros.
pub open spec fn decimal_digits(n: nat) -> Seq<u8>
    decreases n,
{
    if n < 10 {
        seq![n as u8]
    } else {
        decimal_digits(n / 10).push((n % 10) as u8)
    }
}

/// Whether every element of `digits` is a decimal digit.
pub open spec fn decimal_only(digits: Seq<u8>) -> bool {
    forall|i: int| 0 <= i < digits.len() ==> #[trigger] digits[i] < 10
}

/// Whether `x` is the inverse of `a` modulo `m`, taken from the residues below `m`.
pub open spec fn is_inverse(a: nat, x: nat, m: nat) -> bool {
    x < m && (a * x) % m == 1nat % m
}

/// `BigUint`'s addition: the sum of the two numbers.
#[verifier::external_body]
pub(crate) fn big_add(a: &Vec<u8>, b: &Vec<u8>) -> (sum: Vec<u8>)
    ensures
        bytes_value(sum@) == bytes_value(a@) + bytes_value(b@),
{
    (BigUint::from_bytes_be(a) + BigUint::from_bytes_be(b)).to_bytes_be()
}

/// `BigUint`'s subtraction, which panics when the result would be negative: the
/// difference of the two numbers.
#[verifier::external_body]
pub(crate) fn big_sub(a: &Vec<u8>, b: &Vec<u8>) -> (difference: Vec<u8>)
    requires
        bytes_value(a@) >= bytes_value(b@),
    ensures
        bytes_value(difference@) == bytes_value(a@) - bytes_value(b@),
{
    (BigUint::from_bytes_be(a) - BigUint::from_bytes_be(b)).to_bytes_be()
}

/// `BigUint`'s multiplication: the product of the two numbers.
#[verifier::external_body]
pub(crate) fn big_mul(a: &Vec<u8>, b: &Vec<u8>) -> (product: Vec<u8>)
    ensures
        bytes_value(product@) == bytes_value(a@) * bytes_value(b@),
{
    (BigUint::from_bytes_be(a) * BigUint::from_bytes_be(b)).to_bytes_be()
}

/// `BigUint`'s remainder, which panics on a zero divisor: the remainder of `a` by `m`.
#[verifier::external_body]
pub(crate) fn big_rem(a: &Vec<u8>, m: &Vec<u8>) -> (remainder: Vec<u8>)
    requires
        bytes_value(m@) > 0,
    ensures
        bytes_value(remainder@) == bytes_value(a@) % bytes_value(m@),
{
    (BigUint::from_bytes_be(a) % BigUint::from_bytes_be(m)).to_bytes_be()
}

/// `BigUint::modinv`, which panics on a zero modulus: the residue below `m` whose
/// product with `a` is congruent to one, or `None` when no residue is.
#[verifier::external_body]
pub(crate) fn big_modinv(a: &Vec<u8>, m: &Vec<u8>) -> (inverse: Option<Vec<u8>>)
    requires
        bytes_value(m@) > 0,
    ensures
        inverse matches Some(x) ==> is_inverse(bytes_value(a@), bytes_value(x@), bytes_value(m@)),
        inverse is None ==> forall|y: nat| !is_inverse(bytes_value(a@), y, bytes_value(m@)),
{
    match BigUint::from_bytes_be(a).modinv(&BigUint::from_bytes_be(m)) {
        Some(x) => Some(x.to_bytes_be()),
        None => None,
    }
}

/// `BigUint`'s order: whether the first number is below the second.
#[verifier::external_body]
pub(crate) fn big_less(a: &Vec<u8>, b: &Vec<u8>) -> (less: bool)
    ensures
        less == (bytes_value(a@) < bytes_value(b@)),
{
    BigUint::from_bytes_be(a) < BigUint::from_bytes_be(b)
}

/// `BigUint::from_radix_be` in base ten: the number that the digits write. It is
/// `None` exactly when some element is no decimal digit.
#[verifier::external_body]
pub(crate) fn big_from_decimal(digits: &Vec<u8>) -> (number: Option<Vec<u8>>)
    ensures
        number is Some <==> decimal_only(digits@),
        number matches Some(n) ==> bytes_value(n@) == radix_value(digits@, 10),
{
    match BigUint::from_radix_be(digits, 10) {
        Some(n) => Some(n.to_bytes_be()),
        None => None,
    }
}

/// `BigUint::to_radix_be` in base ten: the decimal digits of the number.
#[verifier::external_body]
pub(crate) fn big_to_decimal(a: &Vec<u8>) -> (digits: Vec<u8>)
    ensures
        digits@ == decimal_digits(bytes_value(a@)),
{
    BigUint::from_bytes_be(a).to_radix_be(10)
}

} // verus!
