//! Exact decimal amounts of money.
//!
//! An amount is an integer mantissa and a scale, the number of decimal places:
//! the amount is `mantissa / 10^scale`. Sums and differences are computed by
//! `rust_decimal`, and every answer it gives is checked against the exact
//! result before it is used: an answer that was rounded is not accepted.

use rust_decimal::Decimal;
use vstd::arithmetic::div_mod::lemma_fundamental_div_mod;
use vstd::arithmetic::power::{lemma_pow_adds, lemma_pow_increases, lemma_pow_positive, pow};
use vstd::prelude::*;
use vstd::std_specs::cmp::PartialEqSpecImpl;
use vstd::std_specs::convert::FromSpecImpl;

verus! {

/// The largest magnitude of a mantissa: `2^96 - 1`.
pub const MAX_MANTISSA: i128 = 79_228_162_514_264_337_593_543_950_335;

/// The largest number of decimal places.
pub const MAX_SCALE: u32 = 28;

/// `10^n`.
pub open spec fn pow10(n: nat) -> int {
    pow(10, n)
}

/// Whether a mantissa and a scale are within the limits of an amount.
pub open spec fn in_range(mantissa: int, scale: int) -> bool {
    &&& -MAX_MANTISSA <= mantissa <= MAX_MANTISSA
    &&& 0 <= scale <= MAX_SCALE
}

/// The amount `mantissa / 10^scale`, counted in units of `10^-28`.
pub open spec fn units(mantissa: int, scale: int) -> int {
    mantissa * pow10((MAX_SCALE - scale) as nat)
}

/// What `rust_decimal` answers when it adds `bm / 10^bs` to `am / 10^as_`: the
/// mantissa and the scale of its sum, or `None` where it reports an overflow.
pub uninterp spec fn decimal_sum(am: i128, as_: u32, bm: i128, bs: u32) -> Option<(i128, u32)>;

/// What `rust_decimal` answers when it subtracts `bm / 10^bs` from
/// `am / 10^as_`: the mantissa and the scale of its difference, or `None` where
/// it reports an overflow.
pub uninterp spec fn decimal_difference(am: i128, as_: u32, bm: i128, bs: u32) -> Option<
    (i128, u32),
>;

/// `rust_decimal::Decimal::checked_add` on two amounts given by mantissa and
/// scale. Where the sum does not fit its 96 bits the crate drops decimal
/// places and rounds, or reports an overflow; none of that is stated here.
/// Nothing is claimed of the answer but that it is the one the crate gives for
/// these operands.
#[verifier::external_body]
fn decimal_checked_add(am: i128, as_: u32, bm: i128, bs: u32) -> (r: Option<(i128, u32)>)
    requires
        in_range(am as int, as_ as int),
        in_range(bm as int, bs as int),
    ensures
        r == decimal_sum(am, as_, bm, bs),
{
    let a = Decimal::from_i128_with_scale(am, as_);
    let b = Decimal::from_i128_with_scale(bm, bs);
    match a.checked_add(b) {
        Some(sum) => Some((sum.mantissa(), sum.scale())),
        None => None,
    }
}

/// `rust_decimal::Decimal::checked_sub` on two amounts given by mantissa and
/// scale. Where the difference does not fit its 96 bits the crate drops
/// decimal places and rounds, or reports an overflow; none of that is stated
/// here. Nothing is claimed of the answer but that it is the one the crate
/// gives for these operands.
#[verifier::external_body]
fn decimal_checked_sub(am: i128, as_: u32, bm: i128, bs: u32) -> (r: Option<(i128, u32)>)
    requires
        in_range(am as int, as_ as int),
        in_range(bm as int, bs as int),
    ensures
        r == decimal_difference(am, as_, bm, bs),
{
    let a = Decimal::from_i128_with_scale(am, as_);
    let b = Decimal::from_i128_with_scale(bm, bs);
    match a.checked_sub(b) {
        Some(difference) => Some((difference.mantissa(), difference.scale())),
        None => None,
    }
}

/// `<` of `rust_decimal::Decimal` on two amounts given by mantissa and scale.
/// The claim is that the crate orders its decimals as numbers, whatever their
/// scales: the answer is `true` exactly where the first amount is the smaller
/// number.
#[verifier::external_body]
fn decimal_less(am: i128, as_: u32, bm: i128, bs: u32) -> (r: bool)
    requires
        in_range(am as int, as_ as int),
        in_range(bm as int, bs as int),
    ensures
        r == (units(am as int, as_ as int) < units(bm as int, bs as int)),
{
    let a = Decimal::from_i128_with_scale(am, as_);
    let b = Decimal::from_i128_with_scale(bm, bs);
    a < b
}

/// `10^28` written out.
proof fn lemma_pow10_max()
    ensures
        pow10(28) == 10_000_000_000_000_000_000_000_000_000int,
{
    reveal_with_fuel(pow, 30);
}

/// Powers of ten up to the largest scale are positive and fit in 94 bits.
proof fn lemma_pow10_bounds(n: nat)
    requires
        n <= MAX_SCALE,
    ensures
        1 <= pow10(n) <= 10_000_000_000_000_000_000_000_000_000int,
{
    lemma_pow10_max();
    lemma_pow_positive(10, n);
    lemma_pow_increases(10, n, 28);
}

/// `10^d` for a number of decimal places.
fn power_of_ten(d: u32) -> (p: i128)
    requires
        d <= MAX_SCALE,
    ensures
        p == pow10(d as nat),
        1 <= p <= 10_000_000_000_000_000_000_000_000_000int,
{
    let mut p: i128 = 1;
    let mut i: u32 = 0;
    proof {
        reveal_with_fuel(pow, 1);
    }
    while i < d
        invariant
            i <= d <= MAX_SCALE,
            p == pow10(i as nat),
        decreases d - i,
    {
        proof {
            lemma_pow10_bounds((i + 1) as nat);
            reveal_with_fuel(pow, 1);
        }
        p = p * 10;
        i = i + 1;
    }
    proof {
        lemma_pow10_bounds(d as nat);
    }
    p
}

/// `m * 10^d`, where that fits in 128 bits.
fn scale_up(m: i128, d: u32) -> (r: Option<i128>)
    requires
        d <= MAX_SCALE,
    ensures
        r matches Some(v) ==> v == m * pow10(d as nat),
        r is None ==> (m * pow10(d as nat) > i128::MAX || m * pow10(d as nat) < i128::MIN),
{
    let p = power_of_ten(d);
    m.checked_mul(p)
}

/// Decides `sm * 10^d == xm * 10^e + ym` without leaving 128 bits: a common
/// power of ten is divided out first, so that at most one side is scaled up.
fn balances(sm: i128, d: u32, xm: i128, e: u32, ym: i128) -> (r: bool)
    requires
        -MAX_MANTISSA <= sm <= MAX_MANTISSA,
        -MAX_MANTISSA <= xm <= MAX_MANTISSA,
        -MAX_MANTISSA <= ym <= MAX_MANTISSA,
        d <= MAX_SCALE,
        e <= MAX_SCALE,
    ensures
        r == (sm * pow10(d as nat) == xm * pow10(e as nat) + ym),
{
    let c = if d <= e {
        d
    } else {
        e
    };
    let p = power_of_ten(c);
    let rest = ym % p;
    let y = ym / p;
    let left = scale_up(sm, d - c);
    let right = scale_up(xm, e - c);
    proof {
        let pc = pow10(c as nat);
        let pl = pow10((d - c) as nat);
        let pr = pow10((e - c) as nat);
        lemma_pow_adds(10, (d - c) as nat, c as nat);
        lemma_pow_adds(10, (e - c) as nat, c as nat);
        lemma_pow10_bounds((d - c) as nat);
        lemma_pow10_bounds((e - c) as nat);
        assert(pow10(d as nat) == pl * pc);
        assert(pow10(e as nat) == pr * pc);
        // truncating division, read as a quotient and a remainder of the same sign
        if ym >= 0 {
            lemma_fundamental_div_mod(ym as int, p as int);
            assert(y == (ym as int) / (p as int));
            assert(rest == (ym as int) % (p as int));
        } else {
            lemma_fundamental_div_mod(-(ym as int), p as int);
            assert(y == -((-(ym as int)) / (p as int)));
            assert(rest == -((-(ym as int)) % (p as int)));
            assert(p * (-((-(ym as int)) / (p as int))) == -(p * ((-(ym as int)) / (p as int))))
                by (nonlinear_arith);
        }
        assert(ym == p * y + rest);
        assert(-p < rest < p);
        assert(-MAX_MANTISSA <= y <= MAX_MANTISSA) by (nonlinear_arith)
            requires
                ym == p * y + rest,
                -p < rest < p,
                p >= 1,
                -MAX_MANTISSA <= ym <= MAX_MANTISSA,
        ;
        // both sides, with the common power of ten set apart
        assert(sm * pow10(d as nat) == (sm * pl) * pc) by (nonlinear_arith)
            requires
                pow10(d as nat) == pl * pc,
        ;
        assert(xm * pow10(e as nat) + ym == (xm * pr + y) * pc + rest) by (nonlinear_arith)
            requires
                pow10(e as nat) == pr * pc,
                ym == pc * y + rest,
        ;
        if rest != 0 {
            // a multiple of 10^c cannot equal a multiple plus a remainder
            assert((sm * pl) * pc != (xm * pr + y) * pc + rest) by (nonlinear_arith)
                requires
                    -pc < rest < pc,
                    rest != 0,
            ;
        } else {
            assert(((sm * pl) * pc == (xm * pr + y) * pc) == (sm * pl == xm * pr + y))
                by (nonlinear_arith)
                requires
                    pc >= 1,
            ;
            assert(pow10(0) == 1) by {
                reveal_with_fuel(pow, 1);
            }
            // one side is not scaled; where the other leaves 128 bits, it is
            // too large to equal it
            if left is None {
                assert(d - c != 0);
                assert(e - c == 0);
                assert(pr == 1);
                assert(sm * pl != xm * pr + y);
            } else if right is None {
                assert(e - c != 0);
                assert(d - c == 0);
                assert(pl == 1);
                assert(sm * pl != xm * pr + y);
            }
        }
    }
    if rest != 0 {
        return false;
    }
    match (left, right) {
        (Some(l), Some(r)) => match r.checked_add(y) {
            Some(t) => t == l,
            None => false,
        },
        _ => false,
    }
}

/// Decides whether `sm / 10^ss` is exactly the sum of `am / 10^as_` and
/// `bm / 10^bs`, for a sum with no more decimal places than the operands.
fn sums_exactly(am: i128, as_: u32, bm: i128, bs: u32, sm: i128, ss: u32) -> (r: bool)
    requires
        in_range(am as int, as_ as int),
        in_range(bm as int, bs as int),
        in_range(sm as int, ss as int),
        ss <= as_ || ss <= bs,
    ensures
        r == (units(sm as int, ss as int) == units(am as int, as_ as int) + units(
            bm as int,
            bs as int,
        )),
{
    let k = if as_ <= bs {
        bs
    } else {
        as_
    };
    proof {
        let top = pow10((MAX_SCALE - k) as nat);
        lemma_pow_adds(10, (k - ss) as nat, (MAX_SCALE - k) as nat);
        lemma_pow_adds(10, (k - as_) as nat, (MAX_SCALE - k) as nat);
        lemma_pow_adds(10, (k - bs) as nat, (MAX_SCALE - k) as nat);
        lemma_pow10_bounds((MAX_SCALE - k) as nat);
        let ps = pow10((k - ss) as nat);
        let pa = pow10((k - as_) as nat);
        let pb = pow10((k - bs) as nat);
        assert(((k - ss) as nat) + ((MAX_SCALE - k) as nat) == (MAX_SCALE - ss) as nat);
        assert(((k - as_) as nat) + ((MAX_SCALE - k) as nat) == (MAX_SCALE - as_) as nat);
        assert(((k - bs) as nat) + ((MAX_SCALE - k) as nat) == (MAX_SCALE - bs) as nat);
        assert(pow10((MAX_SCALE - ss) as nat) == ps * top);
        assert(pow10((MAX_SCALE - as_) as nat) == pa * top);
        assert(pow10((MAX_SCALE - bs) as nat) == pb * top);
        assert(pow10(0) == 1) by {
            reveal_with_fuel(pow, 1);
        }
        if as_ <= bs {
            assert(pb == 1);
        } else {
            assert(pa == 1);
        }
        assert(units(sm as int, ss as int) == (sm * ps) * top) by (nonlinear_arith)
            requires
                units(sm as int, ss as int) == sm * (ps * top),
        ;
        assert(units(am as int, as_ as int) + units(bm as int, bs as int) == (am * pa + bm * pb)
            * top) by (nonlinear_arith)
            requires
                units(am as int, as_ as int) == am * (pa * top),
                units(bm as int, bs as int) == bm * (pb * top),
        ;
        assert(((sm * ps) * top == (am * pa + bm * pb) * top) == (sm * ps == am * pa + bm * pb))
            by (nonlinear_arith)
            requires
                top >= 1,
        ;
    }
    if as_ <= bs {
        balances(sm, k - ss, am, k - as_, bm)
    } else {
        balances(sm, k - ss, bm, k - bs, am)
    }
}

/// An amount of money: `mantissa / 10^scale`, with at most 28 decimal places
/// and a mantissa of at most 96 bits.
#[derive(Clone, Copy, Debug)]
pub struct Money {
    mantissa: i128,
    scale: u32,
}

impl View for Money {
    type V = int;

    /// The amount in units of `10^-28`, so that every amount is an integer.
    open spec fn view(&self) -> int {
        units(self.spec_mantissa() as int, self.spec_scale() as int)
    }
}

impl Money {
    #[verifier::type_invariant]
    spec fn well_formed(self) -> bool {
        in_range(self.mantissa as int, self.scale as int)
    }

    /// The mantissa of this amount.
    pub closed spec fn spec_mantissa(self) -> i128 {
        self.mantissa
    }

    /// The number of decimal places of this amount.
    pub closed spec fn spec_scale(self) -> u32 {
        self.scale
    }

    /// The amount with the given mantissa and scale.
    pub closed spec fn of_parts(mantissa: i128, scale: u32) -> Money {
        Money { mantissa, scale }
    }

    /// Whether `rust_decimal`'s answer `(m, s)` to `self + rhs` is accepted: it
    /// is within the limits of an amount, has no more decimal places than the
    /// operands, and is the exact sum.
    pub open spec fn accepts_sum(self, rhs: Money, m: i128, s: u32) -> bool {
        &&& in_range(m as int, s as int)
        &&& (s <= self.spec_scale() || s <= rhs.spec_scale())
        &&& units(m as int, s as int) == self@ + rhs@
    }

    /// Whether `rust_decimal`'s answer `(m, s)` to `self - rhs` is accepted: it
    /// is within the limits of an amount, has no more decimal places than the
    /// operands, and is the exact difference.
    pub open spec fn accepts_difference(self, rhs: Money, m: i128, s: u32) -> bool {
        &&& in_range(m as int, s as int)
        &&& (s <= self.spec_scale() || s <= rhs.spec_scale())
        &&& units(m as int, s as int) == self@ - rhs@
    }

    /// The sum that `checked_add` returns: the answer of `rust_decimal`, where
    /// it gives one and that one is exact.
    pub open spec fn sum(self, rhs: Money) -> Option<Money> {
        match decimal_sum(
            self.spec_mantissa(),
            self.spec_scale(),
            rhs.spec_mantissa(),
            rhs.spec_scale(),
        ) {
            Some((m, s)) => if self.accepts_sum(rhs, m, s) {
                Some(Money::of_parts(m, s))
            } else {
                None
            },
            None => None,
        }
    }

    /// The difference that `checked_sub` returns: the answer of `rust_decimal`,
    /// where it gives one and that one is exact.
    pub open spec fn difference(self, rhs: Money) -> Option<Money> {
        match decimal_difference(
            self.spec_mantissa(),
            self.spec_scale(),
            rhs.spec_mantissa(),
            rhs.spec_scale(),
        ) {
            Some((m, s)) => if self.accepts_difference(rhs, m, s) {
                Some(Money::of_parts(m, s))
            } else {
                None
            },
            None => None,
        }
    }

    /// The parts of `of_parts` are the parts it was given.
    pub broadcast proof fn lemma_of_parts(mantissa: i128, scale: u32)
        ensures
            (#[trigger] Money::of_parts(mantissa, scale)).spec_mantissa() == mantissa,
            Money::of_parts(mantissa, scale).spec_scale() == scale,
    {
    }

    /// A sum, where there is one, is the exact sum of the two amounts.
    pub broadcast proof fn lemma_sum_is_exact(self, rhs: Money)
        ensures
            #![trigger self.sum(rhs)]
            self.sum(rhs) matches Some(s) ==> s@ == self@ + rhs@,
    {
    }

    /// A difference, where there is one, is the exact difference of the two
    /// amounts.
    pub broadcast proof fn lemma_difference_is_exact(self, rhs: Money)
        ensures
            #![trigger self.difference(rhs)]
            self.difference(rhs) matches Some(s) ==> s@ == self@ - rhs@,
    {
    }

    /// The amount zero.
    pub fn zero() -> (r: Money)
        ensures
            r@ == 0,
            r == Money::of_parts(0, 0),
    {
        Money { mantissa: 0, scale: 0 }
    }

    /// The amount `num / 10^scale`, or `None` where `scale` is over 28.
    pub fn new(num: i64, scale: u32) -> (r: Option<Money>)
        ensures
            r is Some <==> scale <= MAX_SCALE,
            r matches Some(m) ==> m == Money::of_parts(num as i128, scale) && m@ == units(
                num as int,
                scale as int,
            ),
    {
        if scale <= MAX_SCALE {
            Some(Money { mantissa: num as i128, scale })
        } else {
            None
        }
    }

    /// The amount `mantissa / 10^scale`, or `None` where the scale is over 28
    /// or the mantissa has more than 96 bits.
    pub fn from_parts(mantissa: i128, scale: u32) -> (r: Option<Money>)
        ensures
            r is Some <==> in_range(mantissa as int, scale as int),
            r matches Some(m) ==> m == Money::of_parts(mantissa, scale) && m@ == units(
                mantissa as int,
                scale as int,
            ),
    {
        if scale <= MAX_SCALE && -MAX_MANTISSA <= mantissa && mantissa <= MAX_MANTISSA {
            Some(Money { mantissa, scale })
        } else {
            None
        }
    }

    /// The mantissa: the amount is `mantissa / 10^scale`.
    pub fn mantissa(&self) -> (r: i128)
        ensures
            r == self.spec_mantissa(),
            -MAX_MANTISSA <= r <= MAX_MANTISSA,
    {
        proof {
            use_type_invariant(self);
        }
        self.mantissa
    }

    /// The number of decimal places.
    pub fn scale(&self) -> (r: u32)
        ensures
            r == self.spec_scale(),
            r <= MAX_SCALE,
    {
        proof {
            use_type_invariant(self);
        }
        self.scale
    }

    /// Whether the amount is below zero.
    pub fn is_negative(&self) -> (r: bool)
        ensures
            r == (self@ < 0),
    {
        proof {
            use_type_invariant(self);
            lemma_pow10_bounds((MAX_SCALE - self.scale) as nat);
            let p = pow10((MAX_SCALE - self.scale) as nat);
            let m = self.mantissa as int;
            assert((m * p < 0) == (m < 0)) by (nonlinear_arith)
                requires
                    p >= 1,
            ;
        }
        self.mantissa < 0
    }

    /// Whether the amount is zero.
    pub fn is_zero(&self) -> (r: bool)
        ensures
            r == (self@ == 0),
    {
        proof {
            use_type_invariant(self);
            lemma_pow10_bounds((MAX_SCALE - self.scale) as nat);
            let p = pow10((MAX_SCALE - self.scale) as nat);
            let m = self.mantissa as int;
            assert((m * p == 0) == (m == 0)) by (nonlinear_arith)
                requires
                    p >= 1,
            ;
        }
        self.mantissa == 0
    }

    /// `self + rhs`, computed by `rust_decimal` and accepted only where it is
    /// exact.
    pub fn checked_add(self, rhs: Money) -> (r: Option<Money>)
        ensures
            r == self.sum(rhs),
            r matches Some(s) ==> s@ == self@ + rhs@,
    {
        proof {
            use_type_invariant(self);
            use_type_invariant(rhs);
        }
        match decimal_checked_add(self.mantissa, self.scale, rhs.mantissa, rhs.scale) {
            Some((m, s)) => {
                if s <= MAX_SCALE && -MAX_MANTISSA <= m && m <= MAX_MANTISSA && (s <= self.scale
                    || s <= rhs.scale) && sums_exactly(
                    self.mantissa,
                    self.scale,
                    rhs.mantissa,
                    rhs.scale,
                    m,
                    s,
                ) {
                    Some(Money { mantissa: m, scale: s })
                } else {
                    None
                }
            },
            None => None,
        }
    }

    /// `self - rhs`, computed by `rust_decimal` and accepted only where it is
    /// exact.
    pub fn checked_sub(self, rhs: Money) -> (r: Option<Money>)
        ensures
            r == self.difference(rhs),
            r matches Some(s) ==> s@ == self@ - rhs@,
    {
        proof {
            use_type_invariant(self);
            use_type_invariant(rhs);
        }
        match decimal_checked_sub(self.mantissa, self.scale, rhs.mantissa, rhs.scale) {
            Some((m, s)) => {
                proof {
                    let p = pow10((MAX_SCALE - rhs.scale) as nat);
                    let b = rhs.mantissa as int;
                    assert((-b) * p == -(b * p)) by (nonlinear_arith);
                }
                if s <= MAX_SCALE && -MAX_MANTISSA <= m && m <= MAX_MANTISSA && (s <= self.scale
                    || s <= rhs.scale) && sums_exactly(
                    self.mantissa,
                    self.scale,
                    -rhs.mantissa,
                    rhs.scale,
                    m,
                    s,
                ) {
                    Some(Money { mantissa: m, scale: s })
                } else {
                    None
                }
            },
            None => None,
        }
    }

    /// Whether `self` is the smaller amount.
    pub fn less_than(&self, other: &Money) -> (r: bool)
        ensures
            r == (self@ < other@),
    {
        proof {
            use_type_invariant(self);
            use_type_invariant(other);
        }
        decimal_less(self.mantissa, self.scale, other.mantissa, other.scale)
    }
}

impl PartialEq for Money {
    /// Two amounts are equal where they are the same number, whatever their
    /// scales: `1.0` equals `1.00`.
    fn eq(&self, other: &Money) -> (r: bool) {
        !self.less_than(other) && !other.less_than(self)
    }
}

impl PartialEqSpecImpl for Money {
    open spec fn obeys_eq_spec() -> bool {
        true
    }

    open spec fn eq_spec(&self, other: &Money) -> bool {
        self@ == other@
    }
}

impl Eq for Money {

}

impl From<i32> for Money {
    /// The whole amount `n`.
    fn from(n: i32) -> (r: Money) {
        Money { mantissa: n as i128, scale: 0 }
    }
}

impl FromSpecImpl<i32> for Money {
    open spec fn obeys_from_spec() -> bool {
        true
    }

    open spec fn from_spec(n: i32) -> Money {
        Money::of_parts(n as i128, 0)
    }
}

} // verus!
