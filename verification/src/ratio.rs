//! Exact fractions: the opacity of a watermark and the share of a photograph's
//! width that the watermark takes are both given as a numerator over a
//! positive denominator, so that every rounding step is exact.

use vstd::prelude::*;

verus! {

/// The fraction `num / den`. The denominator of every value is positive.
#[derive(Clone, Copy, Debug)]
pub struct Ratio {
    num: i32,
    den: u32,
}

/// `n / d` rounded to the nearest integer, halves upwards, for `n >= 0` and
/// `d > 0`.
pub open spec fn round_div(n: int, d: int) -> int {
    (2 * n + d) / (2 * d)
}

impl Ratio {
    #[verifier::type_invariant]
    spec fn positive_denominator(self) -> bool {
        self.den > 0
    }

    /// The numerator.
    pub closed spec fn num(self) -> int {
        self.num as int
    }

    /// The denominator.
    pub closed spec fn den(self) -> int {
        self.den as int
    }

    /// The numerator of the fraction after clamping it into `[0, 1]`, over the
    /// same denominator.
    pub open spec fn unit_num(self) -> int {
        if self.num() < 0 {
            0
        } else if self.num() > self.den() {
            self.den()
        } else {
            self.num()
        }
    }

    /// The fraction with this numerator and denominator.
    pub closed spec fn of(num: i32, den: u32) -> Ratio {
        Ratio { num, den }
    }

    /// A fraction is its numerator and its denominator, nothing else.
    pub proof fn lemma_of(num: i32, den: u32)
        ensures
            Ratio::of(num, den).num() == num,
            Ratio::of(num, den).den() == den,
    {
    }

    /// The numerator with negative fractions raised to zero.
    pub open spec fn non_negative_num(self) -> int {
        if self.num() < 0 {
            0
        } else {
            self.num()
        }
    }

    /// `num / den`, or nothing when the denominator is zero.
    pub fn new(num: i32, den: u32) -> (r: Option<Ratio>)
        ensures
            r is Some <==> den > 0,
            r matches Some(q) ==> q == Ratio::of(num, den) && q.num() == num && q.den() == den,
    {
        if den == 0 {
            None
        } else {
            Some(Ratio { num, den })
        }
    }

    /// The fraction 0.
    pub fn zero() -> (r: Ratio)
        ensures
            r == Ratio::of(0, 1),
            r.num() == 0,
            r.den() == 1,
    {
        Ratio { num: 0, den: 1 }
    }

    /// The fraction 1.
    pub fn one() -> (r: Ratio)
        ensures
            r == Ratio::of(1, 1),
            r.num() == 1,
            r.den() == 1,
    {
        Ratio { num: 1, den: 1 }
    }

    pub fn numerator(&self) -> (n: i32)
        ensures
            n == self.num(),
    {
        self.num
    }

    pub fn denominator(&self) -> (d: u32)
        ensures
            d == self.den(),
            d > 0,
    {
        proof {
            use_type_invariant(self);
        }
        self.den
    }
}

/// Clamps a fraction into `[0, 1]`: out-of-range values are brought to the
/// nearer end, never rejected.
pub fn clamp01(x: Ratio) -> (r: Ratio)
    ensures
        r.num() == x.unit_num(),
        r.den() == x.den(),
        0 <= r.num() <= r.den(),
{
    let den = x.denominator();
    let num = x.numerator();
    if num < 0 {
        Ratio { num: 0, den }
    } else if num as u32 > den {
        // den < num <= i32::MAX here
        Ratio { num: den as i32, den }
    } else {
        x
    }
}

/// Rounding goes to the nearest integer, a tie upwards: `q` is the rounded
/// quotient as soon as `n / d` lies within a half of it.
pub proof fn lemma_round_div_nearest(n: int, d: int, q: int)
    requires
        d > 0,
        (2 * q - 1) * d <= 2 * n,
        2 * n < (2 * q + 1) * d,
    ensures
        round_div(n, d) == q,
{
    assert((2 * n + d) - q * (2 * d) >= 0 && (2 * n + d) - q * (2 * d) < 2 * d
        && 2 * n + d == q * (2 * d) + ((2 * n + d) - q * (2 * d))) by (nonlinear_arith)
        requires
            (2 * q - 1) * d <= 2 * n,
            2 * n < (2 * q + 1) * d,
    ;
    vstd::arithmetic::div_mod::lemma_fundamental_div_mod_converse(
        2 * n + d,
        2 * d,
        q,
        (2 * n + d) - q * (2 * d),
    );
}

/// Clamping is idempotent, and a fraction already in `[0, 1]` is unchanged.
pub proof fn lemma_clamp_idempotent(x: Ratio)
    requires
        x.den() > 0,
    ensures
        0 <= x.unit_num() <= x.den(),
        0 <= x.num() <= x.den() ==> x.unit_num() == x.num(),
{
}

} // verus!
