//! Temperatures: an exact rational reading tagged with its scale, the
//! sixteen conversion formulas between the four scales, and the
//! two-decimal display text.

use vstd::prelude::*;

use crate::decimal::format_value;
use crate::decimal::value_text;
use crate::rational::Rat;
use crate::rational::Rational;
use crate::scale::Scale;
use crate::scale::symbol_of;

verus! {

/// The exact conversion of the fraction `v` from scale `from` to scale
/// `to`: the sixteen textbook formulas, four of them identities, each
/// cleared of fractions. The constants of the formulas carry two
/// decimals, so a factor of one hundred clears them.
pub open spec fn convert_rat(v: Rat, from: Scale, to: Scale) -> Rat {
    match (from, to) {
        (Scale::Celsius, Scale::Celsius) => v,
        (Scale::Fahrenheit, Scale::Celsius) => Rat {
            num: 5 * v.num - 160 * v.den,
            den: 9 * v.den,
        },
        (Scale::Kelvin, Scale::Celsius) => Rat {
            num: 100 * v.num - 27315 * v.den,
            den: 100 * v.den,
        },
        (Scale::Rankine, Scale::Celsius) => Rat {
            num: 500 * v.num - 245835 * v.den,
            den: 900 * v.den,
        },
        (Scale::Celsius, Scale::Fahrenheit) => Rat {
            num: 9 * v.num + 160 * v.den,
            den: 5 * v.den,
        },
        (Scale::Fahrenheit, Scale::Fahrenheit) => v,
        (Scale::Kelvin, Scale::Fahrenheit) => Rat {
            num: 900 * v.num - 229835 * v.den,
            den: 500 * v.den,
        },
        (Scale::Rankine, Scale::Fahrenheit) => Rat {
            num: 100 * v.num - 45967 * v.den,
            den: 100 * v.den,
        },
        (Scale::Celsius, Scale::Kelvin) => Rat {
            num: 100 * v.num + 27315 * v.den,
            den: 100 * v.den,
        },
        (Scale::Fahrenheit, Scale::Kelvin) => Rat {
            num: 500 * v.num + 229835 * v.den,
            den: 900 * v.den,
        },
        (Scale::Kelvin, Scale::Kelvin) => v,
        (Scale::Rankine, Scale::Kelvin) => Rat { num: 5 * v.num, den: 9 * v.den },
        (Scale::Celsius, Scale::Rankine) => Rat {
            num: 900 * v.num + 245835 * v.den,
            den: 500 * v.den,
        },
        (Scale::Fahrenheit, Scale::Rankine) => Rat {
            num: 100 * v.num + 45967 * v.den,
            den: 100 * v.den,
        },
        (Scale::Kelvin, Scale::Rankine) => Rat { num: 9 * v.num, den: 5 * v.den },
        (Scale::Rankine, Scale::Rankine) => v,
    }
}

/// An immutable temperature reading: an exact rational value in one of
/// the four scales.
#[derive(Debug, Clone, Copy, PartialEq, Eq, Structural)]
pub struct Temperature {
    pub value: Rational,
    pub scale: Scale,
}

impl Temperature {
    /// A well-formed reading holds a well-formed fraction.
    pub open spec fn wf(self) -> bool {
        self.value.wf()
    }

    /// A reading small enough to convert; see [`Rational::in_range`].
    pub open spec fn in_range(self) -> bool {
        self.value.in_range()
    }

    /// The display text: the value to two decimals, a space, a degree
    /// mark, and the scale's single-letter symbol.
    pub open spec fn display_text(self) -> Seq<char> {
        value_text(self.value@) + seq![' ', '\u{00b0}', symbol_of(self.scale)]
    }

    /// Pairs a reading with its scale. Total: any value is accepted.
    pub fn new(value: Rational, scale: Scale) -> (t: Temperature)
        ensures
            t.value == value,
            t.scale == scale,
    {
        Temperature { value, scale }
    }

    /// The reading expressed in Celsius.
    pub fn to_celsius(&self) -> (t: Temperature)
        requires
            self.in_range(),
        ensures
            t.scale == Scale::Celsius,
            t.value@ == convert_rat(self.value@, self.scale, Scale::Celsius),
            t.value.displayable(),
            self.scale == Scale::Celsius ==> t.value == self.value,
    {
        let value = match self.scale {
            Scale::Celsius => self.value,
            Scale::Fahrenheit => Rational::new(
                5 * self.value.num - 160 * self.value.den,
                9 * self.value.den,
            ),
            Scale::Kelvin => Rational::new(
                100 * self.value.num - 27315 * self.value.den,
                100 * self.value.den,
            ),
            Scale::Rankine => Rational::new(
                500 * self.value.num - 245835 * self.value.den,
                900 * self.value.den,
            ),
        };
        Temperature { value, scale: Scale::Celsius }
    }

    /// The reading expressed in Fahrenheit.
    pub fn to_fahrenheit(&self) -> (t: Temperature)
        requires
            self.in_range(),
        ensures
            t.scale == Scale::Fahrenheit,
            t.value@ == convert_rat(self.value@, self.scale, Scale::Fahrenheit),
            t.value.displayable(),
            self.scale == Scale::Fahrenheit ==> t.value == self.value,
    {
        let value = match self.scale {
            Scale::Celsius => Rational::new(
                9 * self.value.num + 160 * self.value.den,
                5 * self.value.den,
            ),
            Scale::Fahrenheit => self.value,
            Scale::Kelvin => Rational::new(
                900 * self.value.num - 229835 * self.value.den,
                500 * self.value.den,
            ),
            Scale::Rankine => Rational::new(
                100 * self.value.num - 45967 * self.value.den,
                100 * self.value.den,
            ),
        };
        Temperature { value, scale: Scale::Fahrenheit }
    }

    /// The reading expressed in Kelvin.
    pub fn to_kelvin(&self) -> (t: Temperature)
        requires
            self.in_range(),
        ensures
            t.scale == Scale::Kelvin,
            t.value@ == convert_rat(self.value@, self.scale, Scale::Kelvin),
            t.value.displayable(),
            self.scale == Scale::Kelvin ==> t.value == self.value,
    {
        let value = match self.scale {
            Scale::Celsius => Rational::new(
                100 * self.value.num + 27315 * self.value.den,
                100 * self.value.den,
            ),
            Scale::Fahrenheit => Rational::new(
                500 * self.value.num + 229835 * self.value.den,
                900 * self.value.den,
            ),
            Scale::Kelvin => self.value,
            Scale::Rankine => Rational::new(5 * self.value.num, 9 * self.value.den),
        };
        Temperature { value, scale: Scale::Kelvin }
    }

    /// The reading expressed in Rankine.
    pub fn to_rankine(&self) -> (t: Temperature)
        requires
            self.in_range(),
        ensures
            t.scale == Scale::Rankine,
            t.value@ == convert_rat(self.value@, self.scale, Scale::Rankine),
            t.value.displayable(),
            self.scale == Scale::Rankine ==> t.value == self.value,
    {
        let value = match self.scale {
            Scale::Celsius => Rational::new(
                900 * self.value.num + 245835 * self.value.den,
                500 * self.value.den,
            ),
            Scale::Fahrenheit => Rational::new(
                100 * self.value.num + 45967 * self.value.den,
                100 * self.value.den,
            ),
            Scale::Kelvin => Rational::new(9 * self.value.num, 5 * self.value.den),
            Scale::Rankine => self.value,
        };
        Temperature { value, scale: Scale::Rankine }
    }

    /// The reading expressed in `target`.
    pub fn convert_to(&self, target: Scale) -> (t: Temperature)
        requires
            self.in_range(),
        ensures
            t.scale == target,
            t.value@ == convert_rat(self.value@, self.scale, target),
            t.value.displayable(),
            self.scale == target ==> t.value == self.value,
    {
        match target {
            Scale::Celsius => self.to_celsius(),
            Scale::Fahrenheit => self.to_fahrenheit(),
            Scale::Kelvin => self.to_kelvin(),
            Scale::Rankine => self.to_rankine(),
        }
    }

    /// Renders the reading, for example `100.00 °C`.
    pub fn display_string(&self) -> (s: String)
        requires
            self.value.displayable(),
        ensures
            s@ == self.display_text(),
    {
        let mut out = format_value(&self.value);
        out.append(" \u{00b0}");
        out.append(self.scale.symbol());
        proof {
            reveal_strlit(" \u{00b0}");
            assert(out@ =~= self.display_text());
        }
        out
    }
}

proof fn lemma_mul_shuffle(k: int, n: int, d: int)
    by (nonlinear_arith)
    ensures
        (k * n) * d == n * (k * d),
{
}

/// Converting a reading to its own scale is the identity: the fraction
/// comes back unchanged, without any arithmetic.
pub proof fn lemma_identity_conversion(v: Rat, s: Scale)
    ensures
        convert_rat(v, s, s) == v,
{
}

/// A conversion keeps the denominator positive.
pub proof fn lemma_convert_wf(v: Rat, from: Scale, to: Scale)
    requires
        v.wf(),
    ensures
        convert_rat(v, from, to).wf(),
{
}

/// The round trip is exact: converting a reading to any other scale and
/// back yields a fraction equal, as a rational number, to the original.
pub proof fn lemma_round_trip(v: Rat, s1: Scale, s2: Scale)
    requires
        v.wf(),
    ensures
        convert_rat(convert_rat(v, s1, s2), s2, s1).wf(),
        convert_rat(convert_rat(v, s1, s2), s2, s1).eqv(v),
{
    lemma_convert_wf(v, s1, s2);
    lemma_convert_wf(convert_rat(v, s1, s2), s2, s1);
    let w = convert_rat(convert_rat(v, s1, s2), s2, s1);
    match (s1, s2) {
        (Scale::Celsius, Scale::Fahrenheit) => {
            assert(w.num == 45 * v.num && w.den == 45 * v.den);
            lemma_mul_shuffle(45, v.num, v.den);
        },
        (Scale::Celsius, Scale::Kelvin) => {
            assert(w.num == 10000 * v.num && w.den == 10000 * v.den);
            lemma_mul_shuffle(10000, v.num, v.den);
        },
        (Scale::Celsius, Scale::Rankine) => {
            assert(w.num == 450000 * v.num && w.den == 450000 * v.den);
            lemma_mul_shuffle(450000, v.num, v.den);
        },
        (Scale::Fahrenheit, Scale::Celsius) => {
            assert(w.num == 45 * v.num && w.den == 45 * v.den);
            lemma_mul_shuffle(45, v.num, v.den);
        },
        (Scale::Fahrenheit, Scale::Kelvin) => {
            assert(w.num == 450000 * v.num && w.den == 450000 * v.den);
            lemma_mul_shuffle(450000, v.num, v.den);
        },
        (Scale::Fahrenheit, Scale::Rankine) => {
            assert(w.num == 10000 * v.num && w.den == 10000 * v.den);
            lemma_mul_shuffle(10000, v.num, v.den);
        },
        (Scale::Kelvin, Scale::Celsius) => {
            assert(w.num == 10000 * v.num && w.den == 10000 * v.den);
            lemma_mul_shuffle(10000, v.num, v.den);
        },
        (Scale::Kelvin, Scale::Fahrenheit) => {
            assert(w.num == 450000 * v.num && w.den == 450000 * v.den);
            lemma_mul_shuffle(450000, v.num, v.den);
        },
        (Scale::Kelvin, Scale::Rankine) => {
            assert(w.num == 45 * v.num && w.den == 45 * v.den);
            lemma_mul_shuffle(45, v.num, v.den);
        },
        (Scale::Rankine, Scale::Celsius) => {
            assert(w.num == 450000 * v.num && w.den == 450000 * v.den);
            lemma_mul_shuffle(450000, v.num, v.den);
        },
        (Scale::Rankine, Scale::Fahrenheit) => {
            assert(w.num == 10000 * v.num && w.den == 10000 * v.den);
            lemma_mul_shuffle(10000, v.num, v.den);
        },
        (Scale::Rankine, Scale::Kelvin) => {
            assert(w.num == 45 * v.num && w.den == 45 * v.den);
            lemma_mul_shuffle(45, v.num, v.den);
        },
        _ => {
            assert(w == v);
        },
    }
}

} // verus!
