//! Integer constants of the ten kinds, and the arithmetic that folds them.

use crate::text::{
    decimal, decimal_text, digits_value, is_numeral, parse_numeral, strip_suffix, without_suffix,
};
use crate::types::IntegerKind;
use vstd::arithmetic::mul::*;
use vstd::arithmetic::power::*;
use vstd::prelude::*;
use vstd::string::*;

verus! {

/// A whole number as a sign and a size.
#[derive(Clone, Copy, Debug, PartialEq, Eq)]
pub struct Signed {
    pub negative: bool,
    pub magnitude: u128,
}

impl View for Signed {
    type V = int;

    open spec fn view(&self) -> int {
        if self.negative {
            -(self.magnitude as int)
        } else {
            self.magnitude as int
        }
    }
}

/// `value` where the kind holds it, nothing where it does not.
pub open spec fn within(kind: IntegerKind, value: int) -> Option<int> {
    if kind.holds(value) {
        Some(value)
    } else {
        None
    }
}

/// Division that rounds towards zero; nothing where the divisor is zero.
pub open spec fn truncated_quotient(a: int, b: int) -> Option<int> {
    if b == 0 {
        None
    } else {
        let size = (if a < 0 {
            -a
        } else {
            a
        }) / (if b < 0 {
            -b
        } else {
            b
        });
        if (a < 0) != (b < 0) {
            Some(-size)
        } else {
            Some(size)
        }
    }
}

/// The number that an integer literal writes: a numeral, or a minus sign and a numeral.
pub open spec fn literal_value(text: Seq<char>) -> Option<int> {
    if text.len() > 0 && text[0] == '-' {
        if is_numeral(text.skip(1)) {
            Some(-(digits_value(text.skip(1)) as int))
        } else {
            None
        }
    } else if is_numeral(text) {
        Some(digits_value(text) as int)
    } else {
        None
    }
}

/// The number that an integer literal of a kind writes, with or without the keyword of
/// the kind behind it; nothing where the text is no literal or the kind does not hold
/// the number.
pub open spec fn integer_literal(kind: IntegerKind, text: Seq<char>) -> Option<int> {
    match literal_value(without_suffix(text, kind.spec_keyword())) {
        Some(value) => within(kind, value),
        None => None,
    }
}

/// How a whole number is written: a minus sign where it is negative, then its size.
pub open spec fn signed_decimal(value: int) -> Seq<char> {
    if value < 0 {
        "-"@ + decimal((-value) as nat)
    } else {
        decimal(value as nat)
    }
}

/// A power of a negative number is the power of its size, negated for an odd exponent.
pub proof fn lemma_pow_negative(m: int, e: nat)
    ensures
        pow(-m, e) == if e % 2 == 0 {
            pow(m, e)
        } else {
            -pow(m, e)
        },
    decreases e,
{
    reveal(pow);
    if e > 0 {
        lemma_pow_negative(m, (e - 1) as nat);
        assert((-m) * pow(m, (e - 1) as nat) == -(m * pow(m, (e - 1) as nat))) by (nonlinear_arith);
        assert((-m) * (-pow(m, (e - 1) as nat)) == m * pow(m, (e - 1) as nat)) by (nonlinear_arith);
    }
}

impl Signed {
    pub fn new(negative: bool, magnitude: u128) -> (number: Signed)
        ensures
            number == (Signed { negative, magnitude }),
    {
        Signed { negative, magnitude }
    }

    /// The number as a value of the kind, where the kind holds it.
    pub fn fit(self, kind: IntegerKind) -> (fitted: Option<Signed>)
        ensures
            fitted is Some <==> kind.holds(self@),
            fitted matches Some(n) ==> n@ == self@ && (n.negative ==> n.magnitude > 0),
    {
        if self.magnitude == 0 {
            Some(Signed { negative: false, magnitude: 0 })
        } else if self.negative {
            if self.magnitude <= kind.negative_limit() {
                Some(self)
            } else {
                None
            }
        } else {
            if self.magnitude <= kind.positive_limit() {
                Some(self)
            } else {
                None
            }
        }
    }

    /// The sum, where the kind holds it.
    pub fn checked_add(self, other: Signed, kind: IntegerKind) -> (sum: Option<Signed>)
        ensures
            sum is Some <==> kind.holds(self@ + other@),
            sum matches Some(n) ==> n@ == self@ + other@,
    {
        if self.negative == other.negative {
            match self.magnitude.checked_add(other.magnitude) {
                Some(magnitude) => Signed { negative: self.negative, magnitude }.fit(kind),
                None => None,
            }
        } else if self.magnitude >= other.magnitude {
            Signed { negative: self.negative, magnitude: self.magnitude - other.magnitude }.fit(
                kind,
            )
        } else {
            Signed { negative: other.negative, magnitude: other.magnitude - self.magnitude }.fit(
                kind,
            )
        }
    }

    /// The difference, where the kind holds it.
    pub fn checked_sub(self, other: Signed, kind: IntegerKind) -> (difference: Option<Signed>)
        ensures
            difference is Some <==> kind.holds(self@ - other@),
            difference matches Some(n) ==> n@ == self@ - other@,
    {
        self.checked_add(Signed { negative: !other.negative, magnitude: other.magnitude }, kind)
    }

    /// The product, where the kind holds it.
    pub fn checked_mul(self, other: Signed, kind: IntegerKind) -> (product: Option<Signed>)
        ensures
            product is Some <==> kind.holds(self@ * other@),
            product matches Some(n) ==> n@ == self@ * other@,
    {
        let ghost a = self.magnitude as int;
        let ghost b = other.magnitude as int;
        proof {
            assert((-a) * b == -(a * b)) by (nonlinear_arith);
            assert(a * (-b) == -(a * b)) by (nonlinear_arith);
            assert((-a) * (-b) == a * b) by (nonlinear_arith);
            assert(a * b >= 0) by (nonlinear_arith)
                requires
                    a >= 0,
                    b >= 0,
            ;
        }
        match self.magnitude.checked_mul(other.magnitude) {
            Some(magnitude) => Signed {
                negative: self.negative != other.negative,
                magnitude,
            }.fit(kind),
            None => None,
        }
    }

    /// The quotient, rounded towards zero, where the divisor is not zero and the kind
    /// holds the quotient.
    pub fn checked_div(self, other: Signed, kind: IntegerKind) -> (quotient: Option<Signed>)
        ensures
            quotient is Some <==> (truncated_quotient(self@, other@) matches Some(q)
                && kind.holds(q)),
            quotient matches Some(n) ==> Some(n@) == truncated_quotient(self@, other@),
    {
        if other.magnitude == 0 {
            None
        } else {
            Signed {
                negative: self.negative != other.negative,
                magnitude: self.magnitude / other.magnitude,
            }.fit(kind)
        }
    }

    /// The power, where the exponent is not negative and the kind holds the power.
    pub fn checked_pow(self, exponent: Signed, kind: IntegerKind) -> (power: Option<Signed>)
        ensures
            power is Some <==> exponent@ >= 0 && kind.holds(pow(self@, exponent@ as nat)),
            power matches Some(n) ==> n@ == pow(self@, exponent@ as nat),
    {
        if exponent.negative && exponent.magnitude > 0 {
            return None;
        }
        let ghost e = exponent.magnitude as nat;
        let ghost m = self.magnitude as int;
        let odd: bool = exponent.magnitude % 2 == 1;
        proof {
            if self.negative {
                lemma_pow_negative(m, e);
            }
        }
        let negative: bool = self.negative && odd;
        if exponent.magnitude == 0 {
            proof {
                lemma_pow0(self@);
            }
            return Signed { negative: false, magnitude: 1 }.fit(kind);
        }
        if self.magnitude == 0 {
            proof {
                lemma0_pow(e);
            }
            return Signed { negative: false, magnitude: 0 }.fit(kind);
        }
        if self.magnitude == 1 {
            proof {
                lemma1_pow(e);
            }
            return Signed { negative, magnitude: 1 }.fit(kind);
        }
        let mut acc: u128 = 1;
        let mut i: u128 = 0;
        proof {
            lemma_pow0(m);
        }
        while i < exponent.magnitude
            invariant
                0 <= i <= exponent.magnitude,
                e == exponent.magnitude,
                m == self.magnitude,
                m >= 2,
                acc as int == pow(m, i as nat),
            decreases exponent.magnitude - i,
        {
            proof {
                reveal(pow);
                assert(pow(m, (i + 1) as nat) == m * pow(m, i as nat));
                lemma_pow_increases(m as nat, (i + 1) as nat, e);
                lemma_mul_is_commutative(m, pow(m, i as nat));
            }
            match acc.checked_mul(self.magnitude) {
                Some(next) => {
                    acc = next;
                },
                None => {
                    proof {
                        lemma_pow_negative(m, e);
                        assert(pow(m, e) > u128::MAX);
                    }
                    return None;
                },
            }
            i += 1;
        }
        Signed { negative, magnitude: acc }.fit(kind)
    }

    /// Whether the number is below the other.
    pub fn less(self, other: Signed) -> (less: bool)
        ensures
            less == (self@ < other@),
    {
        if self.negative {
            if other.negative {
                self.magnitude > other.magnitude
            } else {
                self.magnitude > 0 || other.magnitude > 0
            }
        } else {
            if other.negative {
                false
            } else {
                self.magnitude < other.magnitude
            }
        }
    }

    /// Whether the two numbers are the same.
    pub fn equal(self, other: Signed) -> (equal: bool)
        ensures
            equal == (self@ == other@),
    {
        if self.magnitude == 0 {
            other.magnitude == 0
        } else {
            self.negative == other.negative && self.magnitude == other.magnitude
        }
    }

    /// The number as written.
    pub fn fmt(self) -> (text: String)
        ensures
            text@ == signed_decimal(self@),
    {
        if self.negative && self.magnitude > 0 {
            let mut text = String::from_str("-");
            text.append(decimal_text(self.magnitude).as_str());
            text
        } else {
            decimal_text(self.magnitude)
        }
    }

    /// Reads an integer literal of a kind.
    pub fn from_text(kind: IntegerKind, text: &str) -> (number: Option<Signed>)
        ensures
            number is Some <==> integer_literal(kind, text@) is Some,
            number matches Some(n) ==> Some(n@) == integer_literal(kind, text@),
    {
        let text = strip_suffix(text, kind.keyword());
        let len: usize = text.unicode_len();
        if len > 0 && text.get_char(0) == '-' {
            match parse_numeral(text, 1) {
                Some(magnitude) => Signed { negative: true, magnitude }.fit(kind),
                None => None,
            }
        } else {
            assert(text@.skip(0) =~= text@);
            match parse_numeral(text, 0) {
                Some(magnitude) => Signed { negative: false, magnitude }.fit(kind),
                None => None,
            }
        }
    }
}

/// An integer value: a constant of a kind, or a wire of a kind.
#[derive(Clone, Copy, Debug, PartialEq, Eq)]
pub enum Integer {
    Constant(IntegerKind, Signed),
    Allocated(IntegerKind, usize),
}

pub enum IntegerView {
    Constant(IntegerKind, int),
    Allocated(IntegerKind, usize),
}

impl View for Integer {
    type V = IntegerView;

    open spec fn view(&self) -> IntegerView {
        match self {
            Integer::Constant(kind, number) => IntegerView::Constant(*kind, number@),
            Integer::Allocated(kind, wire) => IntegerView::Allocated(*kind, *wire),
        }
    }
}

impl IntegerView {
    pub open spec fn kind(self) -> IntegerKind {
        match self {
            IntegerView::Constant(kind, _) => kind,
            IntegerView::Allocated(kind, _) => kind,
        }
    }

    /// The value as written: the number or the wire, then the keyword of the kind.
    pub open spec fn text(self) -> Seq<char> {
        match self {
            IntegerView::Constant(kind, value) => signed_decimal(value) + kind.spec_keyword(),
            IntegerView::Allocated(kind, wire) => "w"@ + decimal(wire as nat) + kind.spec_keyword(),
        }
    }
}

impl Integer {
    pub fn kind(&self) -> (kind: IntegerKind)
        ensures
            kind == self@.kind(),
    {
        match self {
            Integer::Constant(kind, _) => *kind,
            Integer::Allocated(kind, _) => *kind,
        }
    }

    /// The integer constant that a literal of a kind writes.
    pub fn new_constant(kind: IntegerKind, text: &str) -> (integer: Option<Integer>)
        ensures
            integer is Some <==> integer_literal(kind, text@) is Some,
            integer matches Some(i) ==> i@ == IntegerView::Constant(
                kind,
                integer_literal(kind, text@)->0,
            ),
    {
        match Signed::from_text(kind, text) {
            Some(number) => Some(Integer::Constant(kind, number)),
            None => None,
        }
    }

    /// The value as written.
    pub fn fmt(&self) -> (text: String)
        ensures
            text@ == self@.text(),
    {
        match self {
            Integer::Constant(kind, number) => {
                let mut text = number.fmt();
                text.append(kind.keyword());
                text
            },
            Integer::Allocated(kind, wire) => {
                let mut text = String::from_str("w");
                text.append(decimal_text(*wire as u128).as_str());
                text.append(kind.keyword());
                text
            },
        }
    }
}

} // verus!
