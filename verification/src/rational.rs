//! Exact rational temperature readings.
//!
//! A reading is a fraction `num / den` of two machine integers with a
//! positive denominator. The conversion formulas and the two-decimal
//! display work on this exact representation, so the library's contracts
//! can speak of the represented value itself.

use vstd::prelude::*;

verus! {

/// Largest magnitude accepted for a freshly constructed reading
/// (numerator and denominator): ten to the thirtieth power.
pub const MAX_INPUT_MAG: i128 = 1_000_000_000_000_000_000_000_000_000_000;

/// Largest magnitude a reading may have for display and further use:
/// eight times ten to the thirty-fifth power. One conversion applied to a
/// reading within [`MAX_INPUT_MAG`] stays within this bound, and rounding
/// such a reading to hundredths cannot overflow an `i128`.
pub const MAX_VALUE_MAG: i128 = 800_000_000_000_000_000_000_000_000_000_000_000;

/// The mathematical value of a reading: a fraction of two unbounded integers.
pub ghost struct Rat {
    pub num: int,
    pub den: int,
}

impl Rat {
    /// A well-formed fraction has a positive denominator.
    pub open spec fn wf(self) -> bool {
        self.den > 0
    }

    /// Do `self` and `other` represent the same rational number?
    /// Equality of `num / den` stated by cross-multiplication.
    pub open spec fn eqv(self, other: Rat) -> bool {
        self.num * other.den == other.num * self.den
    }
}

/// An exact rational number: `num / den` with `den > 0`.
#[derive(Debug, Clone, Copy, PartialEq, Eq, Structural)]
pub struct Rational {
    pub num: i128,
    pub den: i128,
}

impl View for Rational {
    type V = Rat;

    open spec fn view(&self) -> Rat {
        Rat { num: self.num as int, den: self.den as int }
    }
}

impl Rational {
    /// A well-formed rational has a positive denominator.
    pub open spec fn wf(self) -> bool {
        self@.wf()
    }

    /// A rational small enough to feed into a conversion: both parts are
    /// bounded by [`MAX_INPUT_MAG`]. Parsed numerals satisfy this.
    pub open spec fn in_range(self) -> bool {
        &&& self.den > 0
        &&& -MAX_INPUT_MAG <= self.num <= MAX_INPUT_MAG
        &&& self.den <= MAX_INPUT_MAG
    }

    /// A rational small enough to round and display: both parts are
    /// bounded by [`MAX_VALUE_MAG`]. Every in-range rational is
    /// displayable, and so is the result of one conversion applied to an
    /// in-range rational.
    pub open spec fn displayable(self) -> bool {
        &&& self.den > 0
        &&& -MAX_VALUE_MAG <= self.num <= MAX_VALUE_MAG
        &&& self.den <= MAX_VALUE_MAG
    }

    /// Builds the fraction `num / den`.
    pub fn new(num: i128, den: i128) -> (r: Rational)
        requires
            den > 0,
        ensures
            r.num == num,
            r.den == den,
            r.wf(),
    {
        Rational { num, den }
    }

    /// Builds the whole number `n`.
    pub fn from_int(n: i128) -> (r: Rational)
        ensures
            r.num == n,
            r.den == 1,
            r.wf(),
    {
        Rational { num: n, den: 1 }
    }

    /// Runtime check for [`Rational::in_range`].
    pub fn is_in_range(&self) -> (b: bool)
        ensures
            b == self.in_range(),
    {
        self.den > 0 && -MAX_INPUT_MAG <= self.num && self.num <= MAX_INPUT_MAG
            && self.den <= MAX_INPUT_MAG
    }

    /// Runtime check for [`Rational::displayable`].
    pub fn is_displayable(&self) -> (b: bool)
        ensures
            b == self.displayable(),
    {
        self.den > 0 && -MAX_VALUE_MAG <= self.num && self.num <= MAX_VALUE_MAG
            && self.den <= MAX_VALUE_MAG
    }
}

} // verus!
