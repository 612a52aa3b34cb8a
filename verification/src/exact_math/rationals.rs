//! Exact rational numbers over 64-bit signed integers.
//!
//! A `Rationals` value is the fraction `over / under` (`over` is the
//! numerator, `under` the denominator).  Values are not required to be
//! reduced until they are normalised by `reduce` or by the arithmetic
//! methods, which always return the reduced form.  Normalisation gives the
//! degenerate fractions explicit sentinel forms: `0/0` becomes `(0, 0)`,
//! `n/0` becomes `i64::MAX / 1` (an "infinite" marker), and a result whose
//! reduced numerator or denominator no longer fits in 64 bits collapses to
//! the same marker.

use vstd::prelude::*;

use crate::utils::integer_utils::spec_gcd;
use crate::utils::integer_utils::lemma_gcd_pos;
use vstd::std_specs::cmp::PartialEqSpec;

verus! {

#[derive(Debug, Clone, Copy)]
pub struct Rationals {
    pub under: i64,
    pub over: i64,
}

/// Absolute value of a mathematical integer.
pub open spec fn abs_int(x: int) -> int {
    if x < 0 {
        -x
    } else {
        x
    }
}

/// 128-bit clamp: the one unrepresentable corner of intermediate
/// arithmetic saturates instead of wrapping.
pub open spec fn clamp_i128(x: int) -> int {
    if x > i128::MAX {
        i128::MAX as int
    } else if x < i128::MIN + 1 {
        i128::MIN + 1
    } else {
        x
    }
}

/// The normalised form of the fraction `o / u`: sign on the numerator,
/// both divided by their greatest common divisor, with the sentinel forms
/// described in the module documentation.
pub open spec fn norm_frac(u: int, o: int) -> Rationals {
    if o == 0 && u == 0 {
        Rationals { under: 0, over: 0 }
    } else if o == 0 {
        Rationals { under: 1, over: 0 }
    } else if u == 0 {
        Rationals { under: 1, over: i64::MAX }
    } else {
        let g = spec_gcd(abs_int(o) as nat, abs_int(u) as nat) as int;
        let nu = abs_int(u) / g;
        let no = if (o < 0) != (u < 0) {
            -(abs_int(o) / g)
        } else {
            abs_int(o) / g
        };
        if nu <= i64::MAX && no <= i64::MAX {
            Rationals { under: nu as i64, over: no as i64 }
        } else {
            Rationals { under: 1, over: i64::MAX }
        }
    }
}

/// What `a.add(b)` returns.
pub open spec fn rat_add(a: Rationals, b: Rationals) -> Rationals {
    if a.under == b.under {
        norm_frac(a.under as int, clamp_i128(a.over + b.over))
    } else {
        norm_frac(
            a.under * b.under,
            clamp_i128(a.over * b.under + b.over * a.under),
        )
    }
}

/// What `a.sub(b)` returns: the sum with the negated right-hand side.
pub open spec fn rat_sub(a: Rationals, b: Rationals) -> Rationals {
    if a.under == b.under {
        norm_frac(a.under as int, clamp_i128(a.over - b.over))
    } else {
        norm_frac(
            a.under * b.under,
            clamp_i128(a.over * b.under - b.over * a.under),
        )
    }
}

/// What `a.mul(b)` returns.
pub open spec fn rat_mul(a: Rationals, b: Rationals) -> Rationals {
    norm_frac(a.under * b.under, a.over * b.over)
}

/// What `a.div(b)` returns: multiplication by the reciprocal of `b`.
pub open spec fn rat_div(a: Rationals, b: Rationals) -> Rationals {
    norm_frac(a.under * b.over, b.under * a.over)
}

proof fn lemma_prod_i64_fits(x: int, y: int)
    requires
        -0x8000_0000_0000_0000 <= x <= 0x7fff_ffff_ffff_ffff,
        -0x8000_0000_0000_0000 <= y <= 0x7fff_ffff_ffff_ffff,
    ensures
        -0x4000_0000_0000_0000_0000_0000_0000_0000 <= x * y
            <= 0x4000_0000_0000_0000_0000_0000_0000_0000,
{
    assert(-0x4000_0000_0000_0000_0000_0000_0000_0000 <= x * y
        <= 0x4000_0000_0000_0000_0000_0000_0000_0000) by (nonlinear_arith)
        requires
            -0x8000_0000_0000_0000 <= x <= 0x7fff_ffff_ffff_ffff,
            -0x8000_0000_0000_0000 <= y <= 0x7fff_ffff_ffff_ffff,
    ;
}

/// The gcd of two positive 128-bit integers, by the same swapping loop as
/// `crate::utils::integer_utils::gcd`.
fn gcd_i128(n: i128, m: i128) -> (r: i128)
    requires
        n >= 1,
        m >= 0,
    ensures
        r == spec_gcd(n as nat, m as nat),
        r >= 1,
{
    let mut a: i128 = n;
    let mut b: i128 = m;
    while b != 0
        invariant
            a >= 1,
            b >= 0,
            spec_gcd(a as nat, b as nat) == spec_gcd(n as nat, m as nat),
        decreases a + b,
    {
        if b < a {
            let t = b;
            b = a;
            a = t;
            proof {
                crate::utils::integer_utils::lemma_gcd_comm(a as nat, b as nat);
            }
        }
        proof {
            crate::utils::integer_utils::lemma_gcd_comm(a as nat, b as nat);
            vstd::arithmetic::div_mod::lemma_mod_bound(b as int, a as int);
        }
        b = b % a;
    }
    proof {
        lemma_gcd_pos(n as nat, m as nat);
        crate::utils::integer_utils::lemma_gcd_comm(a as nat, 0);
    }
    a
}

/// Normalises the fraction `o / u` held in 128-bit intermediates back into
/// a `Rationals` value.
fn reduce_i128(u: i128, o: i128) -> (r: Rationals)
    requires
        u > i128::MIN,
        o > i128::MIN,
    ensures
        r == norm_frac(u as int, o as int),
{
    if o == 0 && u == 0 {
        Rationals { under: 0, over: 0 }
    } else if o == 0 {
        Rationals { under: 1, over: 0 }
    } else if u == 0 {
        Rationals { under: 1, over: i64::MAX }
    } else {
        let neg: bool = (o < 0) != (u < 0);
        let o_abs: i128 = if o < 0 {
            -o
        } else {
            o
        };
        let u_abs: i128 = if u < 0 {
            -u
        } else {
            u
        };
        let g = gcd_i128(o_abs, u_abs);
        let nu = u_abs / g;
        let no = o_abs / g;
        proof {
            vstd::arithmetic::div_mod::lemma_div_pos_is_pos(u_abs as int, g as int);
            vstd::arithmetic::div_mod::lemma_div_pos_is_pos(o_abs as int, g as int);
        }
        if nu <= i64::MAX as i128 && (neg || no <= i64::MAX as i128) {
            if neg {
                Rationals { under: nu as i64, over: (-no) as i64 }
            } else {
                Rationals { under: nu as i64, over: no as i64 }
            }
        } else {
            Rationals { under: 1, over: i64::MAX }
        }
    }
}

impl Rationals {
    /// Scales both parts by `n` without normalising.
    pub fn put_to_denominator(&self, n: i64) -> (r: Self)
        requires
            i64::MIN <= self.under * n <= i64::MAX,
            i64::MIN <= self.over * n <= i64::MAX,
        ensures
            r.under == self.under * n,
            r.over == self.over * n,
    {
        proof {
            lemma_prod_i64_fits(self.under as int, n as int);
            lemma_prod_i64_fits(self.over as int, n as int);
        }
        let under: i64 = ((self.under as i128) * (n as i128)) as i64;
        let over: i64 = ((self.over as i128) * (n as i128)) as i64;
        Rationals { under, over }
    }

    pub fn new(under: i64, over: i64) -> (r: Self)
        ensures
            r.under == under,
            r.over == over,
    {
        Rationals { under, over }
    }

    /// The normalised form of this fraction.
    pub fn reduce(self) -> (r: Self)
        ensures
            r == norm_frac(self.under as int, self.over as int),
    {
        reduce_i128(self.under as i128, self.over as i128)
    }

    /// Both parts replaced by their absolute values.
    pub fn abs(self) -> (r: Self)
        requires
            self.under != i64::MIN,
            self.over != i64::MIN,
        ensures
            r.under == abs_int(self.under as int),
            r.over == abs_int(self.over as int),
    {
        let under: i64 = if self.under < 0 {
            -self.under
        } else {
            self.under
        };
        let over: i64 = if self.over < 0 {
            -self.over
        } else {
            self.over
        };
        Rationals { under, over }
    }

    /// Whether the fraction is zero-valued (zero numerator).
    pub fn is_null(self) -> (r: bool)
        ensures
            r == (self.over == 0),
    {
        self.over == 0
    }

    /// The normalised sum of two fractions.
    pub fn add(self, rhs: Self) -> (r: Self)
        ensures
            r == rat_add(self, rhs),
    {
        if self.under == rhs.under {
            let o: i128 = self.over as i128 + rhs.over as i128;
            reduce_i128(self.under as i128, o)
        } else {
            proof {
                lemma_prod_i64_fits(self.under as int, rhs.under as int);
                lemma_prod_i64_fits(self.over as int, rhs.under as int);
                lemma_prod_i64_fits(rhs.over as int, self.under as int);
            }
            let u: i128 = (self.under as i128) * (rhs.under as i128);
            let p1: i128 = (self.over as i128) * (rhs.under as i128);
            let p2: i128 = (rhs.over as i128) * (self.under as i128);
            if p1 > 0 && p2 > i128::MAX - p1 {
                reduce_i128(u, i128::MAX)
            } else if p1 < 0 && p2 < i128::MIN + 1 - p1 {
                reduce_i128(u, i128::MIN + 1)
            } else {
                reduce_i128(u, p1 + p2)
            }
        }
    }

    /// The normalised difference of two fractions.
    pub fn sub(self, rhs: Self) -> (r: Self)
        ensures
            r == rat_sub(self, rhs),
    {
        if self.under == rhs.under {
            let o: i128 = self.over as i128 - rhs.over as i128;
            reduce_i128(self.under as i128, o)
        } else {
            proof {
                lemma_prod_i64_fits(self.under as int, rhs.under as int);
                lemma_prod_i64_fits(self.over as int, rhs.under as int);
                lemma_prod_i64_fits(rhs.over as int, self.under as int);
            }
            let u: i128 = (self.under as i128) * (rhs.under as i128);
            let p1: i128 = (self.over as i128) * (rhs.under as i128);
            let p2: i128 = (rhs.over as i128) * (self.under as i128);
            if p1 > 0 && p2 < p1 - i128::MAX {
                reduce_i128(u, i128::MAX)
            } else if p1 < 0 && p2 > p1 - (i128::MIN + 1) {
                reduce_i128(u, i128::MIN + 1)
            } else {
                reduce_i128(u, p1 - p2)
            }
        }
    }

    /// The normalised product of two fractions.
    pub fn mul(self, rhs: Self) -> (r: Self)
        ensures
            r == rat_mul(self, rhs),
    {
        proof {
            lemma_prod_i64_fits(self.under as int, rhs.under as int);
            lemma_prod_i64_fits(self.over as int, rhs.over as int);
        }
        let u: i128 = (self.under as i128) * (rhs.under as i128);
        let o: i128 = (self.over as i128) * (rhs.over as i128);
        reduce_i128(u, o)
    }

    /// The normalised quotient of two fractions.
    pub fn div(self, rhs: Self) -> (r: Self)
        ensures
            r == rat_div(self, rhs),
    {
        proof {
            lemma_prod_i64_fits(self.under as int, rhs.over as int);
            lemma_prod_i64_fits(rhs.under as int, self.over as int);
        }
        let u: i128 = (self.under as i128) * (rhs.over as i128);
        let o: i128 = (rhs.under as i128) * (self.over as i128);
        reduce_i128(u, o)
    }
}

impl PartialEq for Rationals {
    /// Fractions with equal denominators compare by numerator; otherwise
    /// by cross-multiplication.
    fn eq(&self, other: &Self) -> (r: bool) {
        if self.under == other.under {
            self.over == other.over
        } else {
            proof {
                lemma_prod_i64_fits(self.over as int, other.under as int);
                lemma_prod_i64_fits(other.over as int, self.under as int);
            }
            (self.over as i128) * (other.under as i128) == (other.over as i128) * (self.under
                as i128)
        }
    }
}

impl vstd::std_specs::cmp::PartialEqSpecImpl for Rationals {
    open spec fn obeys_eq_spec() -> bool {
        true
    }

    open spec fn eq_spec(&self, other: &Self) -> bool {
        if self.under == other.under {
            self.over == other.over
        } else {
            self.over * other.under == other.over * self.under
        }
    }
}

impl PartialOrd for Rationals {
    /// Fractions with equal denominators compare by numerator; otherwise
    /// by cross-multiplication.  Correct ordering needs both denominators
    /// non-negative, as after `reduce`.
    fn partial_cmp(&self, other: &Self) -> (r: Option<core::cmp::Ordering>) {
        if self.under == other.under {
            if self.over == other.over {
                Some(core::cmp::Ordering::Equal)
            } else if self.over > other.over {
                Some(core::cmp::Ordering::Greater)
            } else {
                Some(core::cmp::Ordering::Less)
            }
        } else {
            proof {
                lemma_prod_i64_fits(self.over as int, other.under as int);
                lemma_prod_i64_fits(other.over as int, self.under as int);
            }
            let l: i128 = (self.over as i128) * (other.under as i128);
            let rr: i128 = (other.over as i128) * (self.under as i128);
            if l == rr {
                Some(core::cmp::Ordering::Equal)
            } else if l > rr {
                Some(core::cmp::Ordering::Greater)
            } else {
                Some(core::cmp::Ordering::Less)
            }
        }
    }
}

impl vstd::std_specs::cmp::PartialOrdSpecImpl for Rationals {
    open spec fn obeys_partial_cmp_spec() -> bool {
        true
    }

    open spec fn partial_cmp_spec(&self, other: &Self) -> Option<core::cmp::Ordering> {
        if self.under == other.under {
            if self.over == other.over {
                Some(core::cmp::Ordering::Equal)
            } else if self.over > other.over {
                Some(core::cmp::Ordering::Greater)
            } else {
                Some(core::cmp::Ordering::Less)
            }
        } else {
            if self.over * other.under == other.over * self.under {
                Some(core::cmp::Ordering::Equal)
            } else if self.over * other.under > other.over * self.under {
                Some(core::cmp::Ordering::Greater)
            } else {
                Some(core::cmp::Ordering::Less)
            }
        }
    }
}

/// The exact power of a fraction by a non-negative exponent, normalising
/// after every step, by binary exponentiation.
pub open spec fn rat_pow_u(b: Rationals, e: nat) -> Rationals
    decreases e,
{
    if e == 0 {
        Rationals { under: 1, over: 1 }
    } else {
        let h = rat_pow_u(rat_mul(b, b), e / 2);
        if e % 2 == 1 {
            rat_mul(h, b)
        } else {
            h
        }
    }
}

/// The exact power of a fraction by a signed exponent: a negative
/// exponent takes the reciprocal of the positive power.
pub open spec fn rat_pow_i(b: Rationals, e: int) -> Rationals {
    if e >= 0 {
        rat_pow_u(b, e as nat)
    } else {
        rat_div(Rationals { under: 1, over: 1 }, rat_pow_u(b, (-e) as nat))
    }
}

impl Rationals {
    /// The exact power by a non-negative exponent.
    pub fn pow_u(self, e: u64) -> (r: Self)
        ensures
            r == rat_pow_u(self, e as nat),
        decreases e,
    {
        if e == 0 {
            Rationals { under: 1, over: 1 }
        } else {
            let bb = self.mul(self);
            let h = bb.pow_u(e / 2);
            if e % 2 == 1 {
                h.mul(self)
            } else {
                h
            }
        }
    }

    /// The exact power by a signed exponent.
    pub fn pow_i(self, e: i64) -> (r: Self)
        ensures
            r == rat_pow_i(self, e as int),
    {
        if e >= 0 {
            self.pow_u(e as u64)
        } else {
            let m: u64 = ((-(e + 1)) as u64) + 1;
            Rationals { under: 1, over: 1 }.div(self.pow_u(m))
        }
    }

    /// The exponent denoted by this fraction, where it reduces to a whole
    /// number.
    pub fn as_int_exponent(self) -> (r: Option<i64>)
        ensures
            r == spec_as_int_exponent(self),
    {
        let n = self.reduce();
        if n.under == 1 {
            Some(n.over)
        } else {
            None
        }
    }
}

/// The whole number a fraction reduces to, if any.
pub open spec fn spec_as_int_exponent(x: Rationals) -> Option<i64> {
    let n = norm_frac(x.under as int, x.over as int);
    if n.under == 1 {
        Some(n.over)
    } else {
        None
    }
}

/// The floor of the normalised fraction: the greatest integer not above
/// it.  Degenerate fractions floor to their sentinel numerator.
pub open spec fn rat_floor(x: Rationals) -> i64 {
    let n = norm_frac(x.under as int, x.over as int);
    if n.under <= 0 {
        n.over
    } else {
        if n.over >= 0 {
            ((n.over as int) / (n.under as int)) as i64
        } else {
            let m = -(n.over as int);
            if m % (n.under as int) == 0 {
                (-(m / (n.under as int))) as i64
            } else {
                (-(m / (n.under as int)) - 1) as i64
            }
        }
    }
}

/// The ceiling of the normalised fraction.
pub open spec fn rat_ceil(x: Rationals) -> i64 {
    let n = norm_frac(x.under as int, x.over as int);
    if n.under <= 0 {
        n.over
    } else {
        if n.over <= 0 {
            (-((-(n.over as int)) / (n.under as int))) as i64
        } else {
            if (n.over as int) % (n.under as int) == 0 {
                ((n.over as int) / (n.under as int)) as i64
            } else {
                ((n.over as int) / (n.under as int) + 1) as i64
            }
        }
    }
}

/// The nearest integer, halves rounded away from zero.
pub open spec fn rat_round(x: Rationals) -> i64 {
    let n = norm_frac(x.under as int, x.over as int);
    if n.under <= 0 {
        n.over
    } else {
        let u = n.under as int;
        if n.over >= 0 {
            let m = n.over as int;
            (((2 * m + u) / (2 * u))) as i64
        } else {
            let m = -(n.over as int);
            (-((2 * m + u) / (2 * u))) as i64
        }
    }
}

impl Rationals {
    /// The floor as a machine integer.
    pub fn floor_int(self) -> (r: i64)
        ensures
            r == rat_floor(self),
    {
        let n = self.reduce();
        if n.under <= 0 {
            n.over
        } else {
            if n.over >= 0 {
                proof {
                    vstd::arithmetic::div_mod::lemma_div_pos_is_pos(n.over as int, n.under as int);
                    vstd::arithmetic::div_mod::lemma_div_is_ordered_by_denominator(
                        n.over as int,
                        1,
                        n.under as int,
                    );
                }
                n.over / n.under
            } else {
                let m: i128 = -(n.over as i128);
                let u: i128 = n.under as i128;
                let q = m / u;
                let rm = m % u;
                proof {
                    vstd::arithmetic::div_mod::lemma_div_pos_is_pos(m as int, u as int);
                    vstd::arithmetic::div_mod::lemma_div_is_ordered_by_denominator(
                        m as int,
                        1,
                        u as int,
                    );
                }
                if rm == 0 {
                    (-q) as i64
                } else {
                    ((-q) - 1) as i64
                }
            }
        }
    }

    /// The ceiling as a machine integer.
    pub fn ceil_int(self) -> (r: i64)
        ensures
            r == rat_ceil(self),
    {
        let n = self.reduce();
        if n.under <= 0 {
            n.over
        } else {
            if n.over <= 0 {
                let m: i128 = -(n.over as i128);
                let u: i128 = n.under as i128;
                proof {
                    vstd::arithmetic::div_mod::lemma_div_pos_is_pos(m as int, u as int);
                    vstd::arithmetic::div_mod::lemma_div_is_ordered_by_denominator(
                        m as int,
                        1,
                        u as int,
                    );
                }
                (-(m / u)) as i64
            } else {
                proof {
                    vstd::arithmetic::div_mod::lemma_div_pos_is_pos(n.over as int, n.under as int);
                    vstd::arithmetic::div_mod::lemma_div_is_ordered_by_denominator(
                        n.over as int,
                        1,
                        n.under as int,
                    );
                }
                let q = n.over / n.under;
                let rm = n.over % n.under;
                if rm == 0 {
                    q
                } else {
                    proof {
                        vstd::arithmetic::div_mod::lemma_fundamental_div_mod(
                            n.over as int,
                            n.under as int,
                        );
                        if n.under == 1 {
                            assert(n.over as int % 1 == 0) by {
                                vstd::arithmetic::div_mod::lemma_mod_multiples_basic(
                                    n.over as int,
                                    1,
                                );
                            }
                        }
                        vstd::arithmetic::div_mod::lemma_div_is_ordered_by_denominator(
                            n.over as int,
                            2,
                            n.under as int,
                        );
                    }
                    q + 1
                }
            }
        }
    }

    /// The nearest integer, halves away from zero.
    pub fn round_int(self) -> (r: i64)
        ensures
            r == rat_round(self),
    {
        let n = self.reduce();
        if n.under <= 0 {
            n.over
        } else {
            let u: i128 = n.under as i128;
            if n.over >= 0 {
                let m: i128 = n.over as i128;
                let q = (2 * m + u) / (2 * u);
                proof {
                    vstd::arithmetic::div_mod::lemma_div_pos_is_pos(
                        2 * m as int + u as int,
                        2 * u as int,
                    );
                    vstd::arithmetic::div_mod::lemma_div_is_ordered_by_denominator(
                        2 * m as int + u as int,
                        1,
                        2 * u as int,
                    );
                }
                q as i64
            } else {
                let m: i128 = -(n.over as i128);
                let q = (2 * m + u) / (2 * u);
                proof {
                    vstd::arithmetic::div_mod::lemma_div_pos_is_pos(
                        2 * m as int + u as int,
                        2 * u as int,
                    );
                    vstd::arithmetic::div_mod::lemma_div_is_ordered_by_denominator(
                        2 * m as int + u as int,
                        1,
                        2 * u as int,
                    );
                }
                (-q) as i64
            }
        }
    }
}

/// Normalising a fraction with positive numerator and denominator
/// preserves its value: the reduced form equals the original under
/// cross-multiplication equality.
pub proof fn lemma_norm_preserves_value(x: Rationals)
    requires
        x.under >= 1,
        x.over >= 1,
    ensures
        norm_frac(x.under as int, x.over as int).eq_spec(&x),
        norm_frac(x.under as int, x.over as int).under >= 1,
        norm_frac(x.under as int, x.over as int).over >= 1,
{
    let u = x.under as int;
    let o = x.over as int;
    let n = norm_frac(u, o);
    assert(abs_int(o) == o && abs_int(u) == u);
    let g = spec_gcd(o as nat, u as nat) as int;
    crate::utils::integer_utils::lemma_gcd_divides(o as nat, u as nat);
    crate::utils::integer_utils::lemma_gcd_pos(o as nat, u as nat);
    let nu = u / g;
    let no = o / g;
    vstd::arithmetic::div_mod::lemma_fundamental_div_mod(o, g);
    vstd::arithmetic::div_mod::lemma_fundamental_div_mod(u, g);
    assert(o == g * no);
    assert(u == g * nu);
    vstd::arithmetic::div_mod::lemma_div_is_ordered_by_denominator(o, 1, g);
    vstd::arithmetic::div_mod::lemma_div_basics(o);
    vstd::arithmetic::div_mod::lemma_div_is_ordered_by_denominator(u, 1, g);
    vstd::arithmetic::div_mod::lemma_div_basics(u);
    assert(no <= o && nu <= u);
    vstd::arithmetic::div_mod::lemma_div_pos_is_pos(u, g);
    vstd::arithmetic::div_mod::lemma_div_pos_is_pos(o, g);
    assert(nu >= 1) by (nonlinear_arith)
        requires
            u == g * nu,
            u >= 1,
            g >= 1,
            nu >= 0,
    ;
    assert(no >= 1) by (nonlinear_arith)
        requires
            o == g * no,
            o >= 1,
            g >= 1,
            no >= 0,
    ;
    assert(n == Rationals { under: nu as i64, over: no as i64 });
    if n.under == x.under {
        assert(g == 1) by (nonlinear_arith)
            requires
                u == g * nu,
                nu == u,
                u >= 1,
                g >= 1,
        ;
        assert(no == o);
    } else {
        assert(no * u == o * nu) by (nonlinear_arith)
            requires
                o == g * no,
                u == g * nu,
        ;
    }
}

/// Denominator-scaling invariance: a fraction equals the same fraction
/// with numerator and denominator both scaled by any non-zero factor.
pub proof fn lemma_eq_denominator_scaling(x: Rationals, c: i64, y: Rationals)
    requires
        x.under != 0,
        c != 0,
        y.under == x.under * c,
        y.over == x.over * c,
    ensures
        x.eq_spec(&y),
{
    if x.under == y.under {
        assert(x.under * 1 == x.under * c ==> c == 1) by (nonlinear_arith)
            requires
                x.under != 0,
        ;
        assert(x.under * 1 == x.under);
        assert(x.over * 1 == x.over);
        if c == 1 {
            assert(y.over == x.over);
        }
    } else {
        assert(x.over * (x.under * c) == (x.over * c) * x.under) by (nonlinear_arith);
    }
}

} // verus!
