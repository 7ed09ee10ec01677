//! Fixed-point price and quantity values: a raw integer scaled by a decimal
//! precision, with a verified canonical decimal rendering.

use vstd::prelude::*;
use crate::strutil::{dec_digits, lemma_dec_digits_val, u64_to_string};

verus! {

/// The largest decimal precision a price or quantity may carry.
pub const MAX_PRECISION: u8 = 9;

/// Ten to the power `p`.
pub open spec fn pow10(p: nat) -> nat
    decreases p,
{
    if p == 0 {
        1
    } else {
        10 * pow10((p - 1) as nat)
    }
}

pub proof fn lemma_pow10_pos(p: nat)
    ensures
        pow10(p) >= 1,
    decreases p,
{
    if p > 0 {
        lemma_pow10_pos((p - 1) as nat);
    }
}

/// A value below `pow10(k)` renders in at most `k` digits.
pub proof fn lemma_dec_digits_len_bound(n: nat, k: nat)
    requires
        k >= 1,
        n < pow10(k),
    ensures
        dec_digits(n).len() <= k,
    decreases n,
{
    if n < 10 {
    } else {
        assert(pow10(k) == 10 * pow10((k - 1) as nat));
        lemma_pow10_pos((k - 1) as nat);
        assert(k >= 2) by {
            if k == 1 {
                assert(pow10(1nat) == 10);
            }
        }
        assert(n / 10 < pow10((k - 1) as nat)) by (nonlinear_arith)
            requires
                n < 10 * pow10((k - 1) as nat),
                n >= 10,
        ;
        lemma_dec_digits_len_bound(n / 10, (k - 1) as nat);
    }
}

/// A run of `k` zero digits.
pub open spec fn zero_seq(k: nat) -> Seq<char> {
    Seq::new(k, |i: int| '0')
}

/// The fractional part: exactly `p` digits, zero padded on the left.
pub open spec fn frac_digits(f: nat, p: nat) -> Seq<char> {
    zero_seq((p - dec_digits(f).len()) as nat) + dec_digits(f)
}

/// Canonical decimal text of the non-negative value `m / pow10(p)`.
pub open spec fn unsigned_decimal_str(m: nat, p: nat) -> Seq<char> {
    if p == 0 {
        dec_digits(m)
    } else {
        dec_digits(m / pow10(p)) + seq!['.'] + frac_digits(m % pow10(p), p)
    }
}

/// Canonical decimal text of the signed scaled value `raw / pow10(p)`.
pub open spec fn decimal_str(raw: int, p: nat) -> Seq<char> {
    if raw < 0 {
        seq!['-'] + unsigned_decimal_str((-raw) as nat, p)
    } else {
        unsigned_decimal_str(raw as nat, p)
    }
}

/// Ten to the power `p`, executably.
pub fn pow10_u64(p: u8) -> (r: u64)
    requires
        p <= MAX_PRECISION,
    ensures
        r == pow10(p as nat),
{
    let mut i: u8 = 0;
    let mut r: u64 = 1;
    while i < p
        invariant
            i <= p,
            p <= 9,
            r == pow10(i as nat),
        decreases p - i,
    {
        proof {
            lemma_pow10_le(i as nat, 8);
            reveal_with_fuel(pow10, 11);
        }
        r = r * 10;
        i = i + 1;
    }
    r
}

pub proof fn lemma_pow10_le(i: nat, j: nat)
    requires
        i <= j,
    ensures
        pow10(i) <= pow10(j),
    decreases j,
{
    if i < j {
        lemma_pow10_le(i, (j - 1) as nat);
        lemma_pow10_pos((j - 1) as nat);
    }
}

/// Renders `m / pow10(p)` in canonical decimal form.
fn unsigned_decimal_to_string(m: u64, p: u8) -> (s: String)
    requires
        p <= MAX_PRECISION,
    ensures
        s@ == unsigned_decimal_str(m as nat, p as nat),
{
    if p == 0 {
        u64_to_string(m)
    } else {
        let pw = pow10_u64(p);
        proof {
            lemma_pow10_pos(p as nat);
        }
        let ip = m / pw;
        let fp = m % pw;
        proof {
            lemma_dec_digits_len_bound(fp as nat, p as nat);
        }
        let mut s = u64_to_string(ip);
        proof {
            reveal_strlit(".");
            reveal_strlit("0");
        }
        s.append(".");
        let frac = u64_to_string(fp);
        let fl = frac.as_str().unicode_len();
        let mut k = fl;
        proof {
            assert(s@ =~= dec_digits(ip as nat) + seq!['.'] + zero_seq(0));
        }
        while k < p as usize
            invariant
                fl <= k <= p,
                p <= 9,
                fl == dec_digits(fp as nat).len(),
                frac@ == dec_digits(fp as nat),
                s@ == dec_digits((m as nat / pow10(p as nat)) as nat) + seq!['.'] + zero_seq(
                    (k - fl) as nat,
                ),
                ip == m as nat / pow10(p as nat),
            decreases p - k,
        {
            s.append("0");
            proof {
                assert(zero_seq((k + 1 - fl) as nat) =~= zero_seq((k - fl) as nat) + "0"@) by {
                    reveal_strlit("0");
                }
            }
            k = k + 1;
        }
        s.append(frac.as_str());
        proof {
            assert(fp as nat == m as nat % pow10(p as nat));
            assert(s@ =~= dec_digits((m as nat / pow10(p as nat)) as nat) + seq!['.'] + frac_digits(
                m as nat % pow10(p as nat),
                p as nat,
            ));
        }
        s
    }
}

/// A fixed-point price: `raw / pow10(precision)`.
#[derive(Clone, Copy, PartialEq, Eq, Structural, Debug, Hash)]
pub struct Price {
    pub raw: i64,
    pub precision: u8,
}

impl Price {
    /// True when the precision lies within the supported range.
    pub open spec fn wf(self) -> bool {
        self.precision <= MAX_PRECISION
    }

    /// Builds a price from its raw scaled integer and precision.
    pub fn from_raw(raw: i64, precision: u8) -> (r: Price)
        requires
            precision <= MAX_PRECISION,
        ensures
            r == (Price { raw, precision }),
            r.wf(),
    {
        Price { raw, precision }
    }

    /// Builds a price, rejecting an unsupported precision.
    pub fn from_raw_checked(raw: i64, precision: u8) -> (r: Option<Price>)
        ensures
            (r is Some) == (precision <= MAX_PRECISION),
            r matches Some(p) ==> p == (Price { raw, precision }) && p.wf(),
    {
        if precision <= MAX_PRECISION {
            Some(Price { raw, precision })
        } else {
            None
        }
    }

    /// The canonical decimal rendering.
    pub fn to_string(&self) -> (s: String)
        requires
            self.wf(),
        ensures
            s@ == decimal_str(self.raw as int, self.precision as nat),
    {
        if self.raw >= 0 {
            unsigned_decimal_to_string(self.raw as u64, self.precision)
        } else {
            let mag: u64 = ((-(self.raw as i128)) as u64);
            let mut s = String::new();
            proof {
                reveal_strlit("-");
            }
            s.append("-");
            let u = unsigned_decimal_to_string(mag, self.precision);
            s.append(u.as_str());
            proof {
                assert(s@ =~= decimal_str(self.raw as int, self.precision as nat)) by {
                    reveal_strlit("-");
                }
            }
            s
        }
    }
}

/// A fixed-point quantity: `raw / pow10(precision)`, never negative.
#[derive(Clone, Copy, PartialEq, Eq, Structural, Debug, Hash)]
pub struct Quantity {
    pub raw: u64,
    pub precision: u8,
}

impl Quantity {
    /// True when the precision lies within the supported range.
    pub open spec fn wf(self) -> bool {
        self.precision <= MAX_PRECISION
    }

    /// Builds a quantity from its raw scaled integer and precision.
    pub fn from_raw(raw: u64, precision: u8) -> (r: Quantity)
        requires
            precision <= MAX_PRECISION,
        ensures
            r == (Quantity { raw, precision }),
            r.wf(),
    {
        Quantity { raw, precision }
    }

    /// Builds a quantity, rejecting an unsupported precision.
    pub fn from_raw_checked(raw: u64, precision: u8) -> (r: Option<Quantity>)
        ensures
            (r is Some) == (precision <= MAX_PRECISION),
            r matches Some(q) ==> q == (Quantity { raw, precision }) && q.wf(),
    {
        if precision <= MAX_PRECISION {
            Some(Quantity { raw, precision })
        } else {
            None
        }
    }

    /// The canonical decimal rendering.
    pub fn to_string(&self) -> (s: String)
        requires
            self.wf(),
        ensures
            s@ == unsigned_decimal_str(self.raw as nat, self.precision as nat),
    {
        unsigned_decimal_to_string(self.raw, self.precision)
    }
}

} // verus!
