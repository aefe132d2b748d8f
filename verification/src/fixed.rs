//! Exact decimal values for real-valued engine options.
//!
//! The external engine's real-valued options (step sizes, tolerances,
//! adaptation constants) are decimal literals with at most twelve
//! fractional digits.  [`Fixed`] holds such a value exactly, as a sign and
//! a magnitude counted in units of `10^-12`.  Every comparison and the
//! canonical rendering are therefore exact: two values are the default
//! precisely when they denote the same decimal number, and the rendered
//! text is the shortest decimal form, matching what the engine prints for
//! these values.

use vstd::prelude::*;

use crate::render::{
    append_padded, append_u128, dec_nat, dec_nat_padded,
};

verus! {

/// Magnitude units per whole 1: twelve decimal digits of fraction.
pub const FIXED_SCALE: u128 = 1_000_000_000_000;

/// Powers of ten up to `10^12`, the fractional resolution.
pub open spec fn pow10(e: nat) -> nat {
    if e == 0 {
        1
    } else if e == 1 {
        10
    } else if e == 2 {
        100
    } else if e == 3 {
        1_000
    } else if e == 4 {
        10_000
    } else if e == 5 {
        100_000
    } else if e == 6 {
        1_000_000
    } else if e == 7 {
        10_000_000
    } else if e == 8 {
        100_000_000
    } else if e == 9 {
        1_000_000_000
    } else if e == 10 {
        10_000_000_000
    } else if e == 11 {
        100_000_000_000
    } else {
        1_000_000_000_000
    }
}

/// An exact decimal number: `(-1 if neg) * mag / 10^12`.
#[derive(Debug, Clone, Copy, PartialEq, Eq, Structural)]
pub struct Fixed {
    pub neg: bool,
    pub mag: u128,
}

impl Fixed {
    /// The value scaled by `10^12`, as a mathematical integer.
    pub open spec fn units(self) -> int {
        if self.neg {
            -(self.mag as int)
        } else {
            self.mag as int
        }
    }

    /// Canonical form: zero is never negative, so equal values are
    /// equal structurally.
    pub open spec fn wf(self) -> bool {
        self.neg ==> self.mag > 0
    }

    /// The value zero.
    pub fn zero() -> (r: Fixed)
        ensures
            r.units() == 0,
            r.wf(),
    {
        Fixed { neg: false, mag: 0 }
    }

    /// The value `i`.
    pub fn from_int(i: i64) -> (r: Fixed)
        ensures
            r.units() == i * 1_000_000_000_000,
            r.wf(),
    {
        let wide: i128 = i as i128;
        if wide < 0 {
            let m: u128 = (-wide) as u128;
            Fixed { neg: true, mag: m * FIXED_SCALE }
        } else {
            Fixed { neg: false, mag: (wide as u128) * FIXED_SCALE }
        }
    }

    /// The value `(-1 if neg) * mant / 10^frac_digits`: the decimal
    /// literal whose digits are those of `mant` with `frac_digits` of
    /// them behind the point.
    pub fn from_parts(neg: bool, mant: u64, frac_digits: u32) -> (r: Fixed)
        requires
            frac_digits <= 12,
        ensures
            r.mag == mant * pow10((12 - frac_digits) as nat),
            r.neg == (neg && mant > 0),
            r.units() == (if neg {
                -(mant as int)
            } else {
                mant as int
            }) * pow10((12 - frac_digits) as nat),
            r.wf(),
    {
        let scale = pow10_exec(12 - frac_digits);
        let mag = (mant as u128) * scale;
        proof {
            assert((-(mant as int)) * (scale as int) == -((mant as int) * (scale as int)))
                by (nonlinear_arith);
        }
        Fixed { neg: neg && mant > 0, mag }
    }

    /// Whether the value is strictly positive.
    pub fn is_positive(&self) -> (r: bool)
        ensures
            r == (self.units() > 0),
    {
        !self.neg && self.mag > 0
    }

    /// Whether `self < other`, as decimal numbers.
    pub fn lt(&self, other: &Fixed) -> (r: bool)
        ensures
            r == (self.units() < other.units()),
    {
        if self.neg {
            if other.neg {
                other.mag < self.mag
            } else {
                self.mag > 0 || other.mag > 0
            }
        } else {
            if other.neg {
                false
            } else {
                self.mag < other.mag
            }
        }
    }

    /// Whether `self <= other`, as decimal numbers.
    pub fn le(&self, other: &Fixed) -> (r: bool)
        ensures
            r == (self.units() <= other.units()),
    {
        !other.lt(self)
    }

    /// The canonical decimal text of the value: sign, integer part, and
    /// the fractional digits with trailing zeros dropped.
    pub open spec fn spec_text(self) -> Seq<char> {
        (if self.neg {
            seq!['-']
        } else {
            Seq::<char>::empty()
        }) + dec_nat((self.mag as nat) / 1_000_000_000_000) + frac_text(
            (self.mag as nat) % 1_000_000_000_000,
        )
    }

    /// Renders the canonical decimal text of the value.
    pub fn to_text(&self) -> (r: String)
        ensures
            r@ == self.spec_text(),
    {
        let mut s = String::new();
        if self.neg {
            proof {
                reveal_strlit("-");
            }
            s.append("-");
        }
        append_u128(&mut s, self.mag / FIXED_SCALE);
        let fp = self.mag % FIXED_SCALE;
        if fp > 0 {
            proof {
                reveal_strlit(".");
            }
            s.append(".");
            let mut f = fp;
            let mut w: u32 = 12;
            proof {
                lemma_pow10_bound(fp as nat, 12);
            }
            while f % 10 == 0
                invariant
                    0 < f < pow10(w as nat),
                    w <= 12,
                    trimmed_frac(fp as nat, 12) == trimmed_frac(f as nat, w as nat),
                decreases w,
            {
                proof {
                    assert(w > 1) by {
                        if w == 1 {
                            assert(f < 10);
                            assert(f % 10 == f);
                        }
                    }
                }
                f = f / 10;
                w = w - 1;
                proof {
                    lemma_pow10_div(w as nat);
                }
            }
            append_padded(&mut s, f, w);
            proof {
                assert(trimmed_frac(f as nat, w as nat) == dec_nat_padded(f as nat, w as nat));
            }
        }
        assert(s@ =~= self.spec_text());
        s
    }
}

/// The non-negative value `mag / 10^12`.
pub open spec fn fx(mag: u128) -> Fixed {
    Fixed { neg: false, mag }
}

/// Builds the non-negative value `mag / 10^12`.
pub fn fx_exec(mag: u128) -> (r: Fixed)
    ensures
        r == fx(mag),
        r.wf(),
{
    Fixed { neg: false, mag }
}

/// The fractional suffix of the canonical text: empty when the
/// fraction is zero, otherwise a point and the trimmed digits.
pub open spec fn frac_text(fp: nat) -> Seq<char> {
    if fp == 0 {
        Seq::<char>::empty()
    } else {
        seq!['.'] + trimmed_frac(fp, 12)
    }
}

/// The `width` zero-padded digits of `f` with trailing zeros dropped.
pub open spec fn trimmed_frac(f: nat, width: nat) -> Seq<char>
    decreases width,
{
    if width == 0 {
        Seq::<char>::empty()
    } else if f % 10 == 0 {
        trimmed_frac(f / 10, (width - 1) as nat)
    } else {
        dec_nat_padded(f, width)
    }
}

/// Powers of ten as an executable table.
pub fn pow10_exec(e: u32) -> (r: u128)
    requires
        e <= 12,
    ensures
        r as nat == pow10(e as nat),
        r >= 1,
{
    match e {
        0 => 1,
        1 => 10,
        2 => 100,
        3 => 1_000,
        4 => 10_000,
        5 => 100_000,
        6 => 1_000_000,
        7 => 10_000_000,
        8 => 100_000_000,
        9 => 1_000_000_000,
        10 => 10_000_000_000,
        11 => 100_000_000_000,
        _ => 1_000_000_000_000,
    }
}

proof fn lemma_pow10_bound(f: nat, w: nat)
    requires
        w == 12,
        f < 1_000_000_000_000,
    ensures
        f < pow10(w),
{
}

proof fn lemma_pow10_div(w: nat)
    requires
        w < 12,
    ensures
        pow10((w + 1) as nat) / 10 == pow10(w),
{
}

} // verus!
