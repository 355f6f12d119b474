use vstd::arithmetic::div_mod::lemma_div_multiples_vanish;
use vstd::prelude::*;

verus! {

/// The largest number of digits after the decimal point.
pub const MAX_SCALE: u32 = 28;

/// The largest magnitude of a mantissa (96 bits, all set).
pub const MAX_MANTISSA: i128 = 79228162514264337593543950335;

/// A rescaled mantissa is kept within ten times this bound.
const RESCALE_LIMIT: i128 = 15845632502852867518708790067;

pub open spec fn pow10(n: nat) -> int
    decreases n,
{
    if n == 0 {
        1
    } else {
        10 * pow10((n - 1) as nat)
    }
}

pub proof fn lemma_pow10_positive(n: nat)
    ensures
        pow10(n) >= 1,
    decreases n,
{
    if n > 0 {
        lemma_pow10_positive((n - 1) as nat);
    }
}

pub proof fn lemma_pow10_add(x: nat, y: nat)
    ensures
        pow10(x + y) == pow10(x) * pow10(y),
    decreases x,
{
    if x > 0 {
        lemma_pow10_add((x - 1) as nat, y);
        assert(pow10(x + y) == 10 * pow10((x - 1 + y) as nat));
        assert(10 * (pow10((x - 1) as nat) * pow10(y)) == (10 * pow10((x - 1) as nat)) * pow10(y))
            by (nonlinear_arith);
    }
}

/// The mantissa and scale that `rust_decimal` reads from a decimal text, if it reads one.
pub uninterp spec fn decimal_parts(text: Seq<char>) -> Option<(i128, u32)>;

/// Relies on `rust_decimal::Decimal::from_str_exact`, read back through `mantissa` and
/// `scale`: a `Decimal` is `m / 10^e` with `-2^96 < m < 2^96` and `e` in `0..=28`.
#[verifier::external_body]
fn parse_decimal(text: &str) -> (r: Option<(i128, u32)>)
    ensures
        r == decimal_parts(text@),
        r matches Some((m, s)) ==> s <= MAX_SCALE && -MAX_MANTISSA <= m <= MAX_MANTISSA,
{
    match rust_decimal::Decimal::from_str_exact(text) {
        Ok(d) => Some((d.mantissa(), d.scale())),
        Err(_) => None,
    }
}

/// An exact decimal number: `mantissa * 10^-scale`.
#[derive(Clone, Copy, Debug, PartialEq, Eq, Structural)]
pub struct Amount {
    pub mantissa: i128,
    pub scale: u32,
}

/// The larger of the two scales: the scale of a sum or a difference.
pub open spec fn sum_scale(a: Amount, b: Amount) -> u32 {
    if a.scale >= b.scale {
        a.scale
    } else {
        b.scale
    }
}

/// The exact sum at the larger scale, if its mantissa is in range.
pub open spec fn spec_add(a: Amount, b: Amount) -> Option<Amount> {
    let s = sum_scale(a, b);
    let m = (a.units() + b.units()) / pow10((MAX_SCALE - s) as nat);
    if -MAX_MANTISSA <= m <= MAX_MANTISSA {
        Some(Amount { mantissa: m as i128, scale: s })
    } else {
        None
    }
}

/// The exact difference at the larger scale, if its mantissa is in range.
pub open spec fn spec_sub(a: Amount, b: Amount) -> Option<Amount> {
    spec_add(a, b.spec_neg())
}

impl Amount {
    pub open spec fn wf(self) -> bool {
        &&& self.scale <= MAX_SCALE
        &&& -MAX_MANTISSA <= self.mantissa <= MAX_MANTISSA
    }

    /// The value as a whole number of units of `10^-28`.
    pub open spec fn units(self) -> int {
        self.mantissa * pow10((MAX_SCALE - self.scale) as nat)
    }

    pub open spec fn spec_neg(self) -> Amount {
        Amount { mantissa: (-self.mantissa) as i128, scale: self.scale }
    }

    pub fn zero() -> (r: Amount)
        ensures
            r == (Amount { mantissa: 0, scale: 0 }),
            r.wf(),
            r.units() == 0,
    {
        Amount { mantissa: 0, scale: 0 }
    }

    /// Builds `mantissa * 10^-scale`; `None` when either part is out of range.
    pub fn from_parts(mantissa: i128, scale: u32) -> (r: Option<Amount>)
        ensures
            r == (if scale <= MAX_SCALE && -MAX_MANTISSA <= mantissa <= MAX_MANTISSA {
                Some(Amount { mantissa, scale })
            } else {
                None
            }),
            r matches Some(a) ==> a.wf(),
    {
        if scale <= MAX_SCALE && -MAX_MANTISSA <= mantissa && mantissa <= MAX_MANTISSA {
            Some(Amount { mantissa, scale })
        } else {
            None
        }
    }

    /// Reads a decimal text exactly, as `rust_decimal` does; `None` when it is not one.
    pub fn parse(text: &str) -> (r: Option<Amount>)
        ensures
            r == (match decimal_parts(text@) {
                Some((m, s)) => Some(Amount { mantissa: m, scale: s }),
                None => None,
            }),
            r matches Some(a) ==> a.wf(),
    {
        match parse_decimal(text) {
            Some((m, s)) => Amount::from_parts(m, s),
            None => None,
        }
    }

    pub fn is_positive(&self) -> (r: bool)
        requires
            self.wf(),
        ensures
            r == (self.units() > 0),
    {
        proof {
            lemma_pow10_positive((MAX_SCALE - self.scale) as nat);
            let p = pow10((MAX_SCALE - self.scale) as nat);
            assert(self.mantissa > 0 <==> self.mantissa * p > 0) by (nonlinear_arith)
                requires
                    p >= 1,
            ;
        }
        self.mantissa > 0
    }

    pub fn neg(&self) -> (r: Amount)
        requires
            self.wf(),
        ensures
            r == self.spec_neg(),
            r.wf(),
            r.units() == -self.units(),
    {
        proof {
            let p = pow10((MAX_SCALE - self.scale) as nat);
            assert((-self.mantissa) * p == -(self.mantissa * p)) by (nonlinear_arith);
        }
        Amount { mantissa: -self.mantissa, scale: self.scale }
    }

    /// `self + other` exactly; `None` when the sum does not fit at the larger scale.
    pub fn checked_add(&self, other: &Amount) -> (r: Option<Amount>)
        requires
            self.wf(),
            other.wf(),
        ensures
            r == spec_add(*self, *other),
            r matches Some(c) ==> c.wf() && c.units() == self.units() + other.units(),
    {
        if self.scale >= other.scale {
            add_rescaled(other, self)
        } else {
            add_rescaled(self, other)
        }
    }

    /// `self - other` exactly; `None` when the difference does not fit at the larger scale.
    pub fn checked_sub(&self, other: &Amount) -> (r: Option<Amount>)
        requires
            self.wf(),
            other.wf(),
        ensures
            r == spec_sub(*self, *other),
            r matches Some(c) ==> c.wf() && c.units() == self.units() - other.units(),
    {
        let n = other.neg();
        self.checked_add(&n)
    }

    /// The same value with no trailing zero digit after the decimal point.
    pub fn normalize(&self) -> (r: Amount)
        requires
            self.wf(),
        ensures
            r.wf(),
            r.units() == self.units(),
            r.scale <= self.scale,
            r.scale == 0 || r.mantissa % 10 != 0,
    {
        let negative = self.mantissa < 0;
        let mut u: u128 = if negative {
            (-self.mantissa) as u128
        } else {
            self.mantissa as u128
        };
        let mut s: u32 = self.scale;
        while s > 0 && u % 10 == 0
            invariant
                self.wf(),
                s <= self.scale,
                u <= MAX_MANTISSA,
                (if negative { -(u as int) } else { u as int }) * pow10((MAX_SCALE - s) as nat)
                    == self.units(),
            decreases s,
        {
            proof {
                let k = (MAX_SCALE - s) as nat;
                assert(pow10(k + 1) == 10 * pow10(k));
                assert(((MAX_SCALE - (s - 1)) as nat) == k + 1);
                let q = (u / 10) as int;
                assert(u as int == 10 * q);
                let p = pow10(k);
                assert((10 * q) * p == q * (10 * p)) by (nonlinear_arith);
                assert((-(10 * q)) * p == (-q) * (10 * p)) by (nonlinear_arith);
            }
            u = u / 10;
            s = s - 1;
        }
        let m: i128 = if negative {
            -(u as i128)
        } else {
            u as i128
        };
        proof {
            if m % 10 == 0 && s > 0 {
                assert(u % 10 == 0);
            }
        }
        Amount { mantissa: m, scale: s }
    }

    /// `self > other` as values.
    pub fn is_greater_than(&self, other: &Amount) -> (r: bool)
        requires
            self.wf(),
            other.wf(),
        ensures
            r == (self.units() > other.units()),
    {
        if self.scale >= other.scale {
            match rescale(other.mantissa, other.scale, self.scale) {
                Some(o) => {
                    proof {
                        lemma_units_split(*other, self.scale);
                        lemma_units_split(*self, self.scale);
                        lemma_scaled_order(self.mantissa as int, o as int, self.scale);
                    }
                    self.mantissa > o
                },
                None => {
                    proof {
                        lemma_units_split(*other, self.scale);
                        lemma_units_split(*self, self.scale);
                        let o = other.mantissa * pow10((self.scale - other.scale) as nat);
                        lemma_scaled_order(self.mantissa as int, o, self.scale);
                    }
                    other.mantissa < 0
                },
            }
        } else {
            match rescale(self.mantissa, self.scale, other.scale) {
                Some(m) => {
                    proof {
                        lemma_units_split(*other, other.scale);
                        lemma_units_split(*self, other.scale);
                        lemma_scaled_order(m as int, other.mantissa as int, other.scale);
                    }
                    m > other.mantissa
                },
                None => {
                    proof {
                        lemma_units_split(*other, other.scale);
                        lemma_units_split(*self, other.scale);
                        let m = self.mantissa * pow10((other.scale - self.scale) as nat);
                        lemma_scaled_order(m, other.mantissa as int, other.scale);
                    }
                    self.mantissa > 0
                },
            }
        }
    }
}

/// The units of `a`, written over the mantissa it has at scale `s`.
proof fn lemma_units_split(a: Amount, s: u32)
    requires
        a.wf(),
        a.scale <= s <= MAX_SCALE,
    ensures
        a.units() == (a.mantissa * pow10((s - a.scale) as nat)) * pow10((MAX_SCALE - s) as nat),
        a.mantissa > 0 <==> a.mantissa * pow10((s - a.scale) as nat) > 0,
        a.mantissa < 0 <==> a.mantissa * pow10((s - a.scale) as nat) < 0,
{
    let d = (s - a.scale) as nat;
    let ghost e = (MAX_SCALE - s) as nat;
    lemma_pow10_add(d, e);
    assert((MAX_SCALE - a.scale) as nat == d + e);
    lemma_pow10_positive(d);
    let p = pow10(d);
    let q = pow10(e);
    let m = a.mantissa as int;
    assert(m * (p * q) == (m * p) * q) by (nonlinear_arith);
    assert(m > 0 <==> m * p > 0) by (nonlinear_arith)
        requires
            p >= 1,
    ;
    assert(m < 0 <==> m * p < 0) by (nonlinear_arith)
        requires
            p >= 1,
    ;
}

/// Multiplying by a positive power of ten keeps the order of two numbers.
proof fn lemma_scaled_order(x: int, y: int, s: u32)
    requires
        s <= MAX_SCALE,
    ensures
        (x * pow10((MAX_SCALE - s) as nat) > y * pow10((MAX_SCALE - s) as nat)) == (x > y),
{
    let q = pow10((MAX_SCALE - s) as nat);
    lemma_pow10_positive((MAX_SCALE - s) as nat);
    assert((x * q > y * q) == (x > y)) by (nonlinear_arith)
        requires
            q >= 1,
    ;
}

/// A sum that `spec_add` gives is well formed and holds the exact value.
pub proof fn lemma_add_units(a: Amount, b: Amount)
    requires
        a.wf(),
        b.wf(),
    ensures
        spec_add(a, b) matches Some(c) ==> c.wf() && c.units() == a.units() + b.units(),
        spec_add(a, b) == spec_add(b, a),
{
    let s = sum_scale(a, b);
    let q = pow10((MAX_SCALE - s) as nat);
    lemma_units_split(a, s);
    lemma_units_split(b, s);
    lemma_pow10_positive((MAX_SCALE - s) as nat);
    let x = a.mantissa * pow10((s - a.scale) as nat);
    let y = b.mantissa * pow10((s - b.scale) as nat);
    assert(x * q + y * q == (x + y) * q) by (nonlinear_arith);
    lemma_div_multiples_vanish(x + y, q);
    assert(q * (x + y) == (x + y) * q) by (nonlinear_arith);
    assert(sum_scale(a, b) == sum_scale(b, a));
}

/// A difference that `spec_sub` gives is well formed and holds the exact value.
pub proof fn lemma_sub_units(a: Amount, b: Amount)
    requires
        a.wf(),
        b.wf(),
    ensures
        spec_sub(a, b) matches Some(c) ==> c.wf() && c.units() == a.units() - b.units(),
{
    let n = b.spec_neg();
    let p = pow10((MAX_SCALE - b.scale) as nat);
    assert((-b.mantissa) * p == -(b.mantissa * p)) by (nonlinear_arith);
    assert(n.units() == -b.units());
    lemma_add_units(a, n);
}

/// `m * 10^(to - from)`, or `None` when its magnitude exceeds twice `MAX_MANTISSA`.
fn rescale(m: i128, from: u32, to: u32) -> (r: Option<i128>)
    requires
        from <= to <= MAX_SCALE,
        -MAX_MANTISSA <= m <= MAX_MANTISSA,
    ensures
        match r {
            Some(x) => x == m * pow10((to - from) as nat) && -2 * MAX_MANTISSA <= x <= 2
                * MAX_MANTISSA,
            None => m * pow10((to - from) as nat) > 2 * MAX_MANTISSA || m * pow10(
                (to - from) as nat,
            ) < -2 * MAX_MANTISSA,
        },
{
    let mut cur: i128 = m;
    let mut i: u32 = from;
    while i < to
        invariant
            from <= i <= to,
            cur == m * pow10((i - from) as nat),
            -2 * MAX_MANTISSA <= cur <= 2 * MAX_MANTISSA,
        decreases to - i,
    {
        proof {
            lemma_pow10_add((i - from) as nat, 1);
            assert(pow10(0) == 1);
            assert(pow10(1) == 10 * pow10(0));
            assert(((i + 1) - from) as nat == (i - from) as nat + 1);
            assert(m * (pow10((i - from) as nat) * 10) == (m * pow10((i - from) as nat)) * 10)
                by (nonlinear_arith);
        }
        if cur > RESCALE_LIMIT || cur < -RESCALE_LIMIT {
            proof {
                let rest = (to - (i + 1)) as nat;
                let c10 = cur * 10;
                lemma_pow10_positive(rest);
                lemma_pow10_add(((i + 1) - from) as nat, rest);
                assert(((i + 1) - from) as nat + rest == (to - from) as nat);
                let p = pow10(((i + 1) - from) as nat);
                let q = pow10(rest);
                assert(m * (p * q) == (m * p) * q) by (nonlinear_arith);
                assert(c10 * q > 2 * MAX_MANTISSA || c10 * q < -2 * MAX_MANTISSA) by (nonlinear_arith)
                    requires
                        q >= 1,
                        c10 > 2 * MAX_MANTISSA || c10 < -2 * MAX_MANTISSA,
                ;
            }
            return None;
        }
        cur = cur * 10;
        i = i + 1;
    }
    Some(cur)
}

/// The exact sum of `lo` and `hi`, where `lo.scale <= hi.scale`.
fn add_rescaled(lo: &Amount, hi: &Amount) -> (r: Option<Amount>)
    requires
        lo.wf(),
        hi.wf(),
        lo.scale <= hi.scale,
    ensures
        r == spec_add(*lo, *hi),
        r == spec_add(*hi, *lo),
        r matches Some(c) ==> c.wf() && c.units() == lo.units() + hi.units(),
{
    let s = hi.scale;
    let ghost e = (MAX_SCALE - s) as nat;
    proof {
        lemma_units_split(*lo, s);
        lemma_units_split(*hi, s);
        lemma_pow10_positive(e);
        assert(pow10(0) == 1);
        assert(hi.mantissa * 1 == hi.mantissa);
    }
    match rescale(lo.mantissa, lo.scale, s) {
        None => {
            proof {
                let x = lo.mantissa * pow10((s - lo.scale) as nat);
                let y = hi.mantissa as int;
                let q = pow10(e);
                assert(x * q + y * q == (x + y) * q) by (nonlinear_arith);
                lemma_div_multiples_vanish(x + y, q);
                assert(q * (x + y) == (x + y) * q) by (nonlinear_arith);
            }
            None
        },
        Some(x) => {
            let sum: i128 = x + hi.mantissa;
            proof {
                let q = pow10(e);
                let y = hi.mantissa as int;
                assert(x * q + y * q == (x + y) * q) by (nonlinear_arith);
                lemma_div_multiples_vanish(x + y, q);
                assert(q * (x + y) == (x + y) * q) by (nonlinear_arith);
            }
            if sum > MAX_MANTISSA || sum < -MAX_MANTISSA {
                None
            } else {
                Some(Amount { mantissa: sum, scale: s })
            }
        },
    }
}

} // verus!
