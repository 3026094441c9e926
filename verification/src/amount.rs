//! Exact decimal amounts.
//!
//! An [`Amount`] is a signed 96-bit mantissa together with a scale between 0
//! and 28: it stands for `mantissa / 10^scale`. Its view is the same number
//! counted in units of `10^-28`, which is always an integer.

use vstd::prelude::*;
use rust_decimal::Decimal;

verus! {

/// The largest magnitude a mantissa may have: `2^96 - 1`.
pub const MAX_MANTISSA: i128 = 79228162514264337593543950335i128;

/// The largest scale an amount may have.
pub const MAX_SCALE: u32 = 28u32;

/// `10^n`.
pub open spec fn pow10(n: nat) -> int
    decreases n,
{
    if n == 0 {
        1
    } else {
        10 * pow10((n - 1) as nat)
    }
}

/// Whether `m` is a mantissa that 96 bits and a sign can hold.
pub open spec fn in_range(m: int) -> bool {
    -MAX_MANTISSA <= m <= MAX_MANTISSA
}

/// Every power of ten is at least one.
pub proof fn lemma_pow10_positive(n: nat)
    ensures
        pow10(n) >= 1,
    decreases n,
{
    if n > 0 {
        lemma_pow10_positive((n - 1) as nat);
    }
}

/// Scaling a mantissa up by more digits never brings it closer to zero.
proof fn lemma_scaled_grows(m: int, i: nat, k: nat)
    requires
        i <= k,
    ensures
        m >= 0 ==> m * pow10(k) >= m * pow10(i),
        m <= 0 ==> m * pow10(k) <= m * pow10(i),
    decreases k - i,
{
    if i < k {
        lemma_scaled_grows(m, i, (k - 1) as nat);
        lemma_pow10_positive((k - 1) as nat);
        let p = pow10((k - 1) as nat);
        assert(pow10(k) == 10 * p);
        assert(m >= 0 ==> m * (10 * p) >= m * p) by (nonlinear_arith)
            requires
                p >= 1,
        ;
        assert(m <= 0 ==> m * (10 * p) <= m * p) by (nonlinear_arith)
            requires
                p >= 1,
        ;
    }
}

/// An exact decimal number: `mantissa / 10^scale`.
#[derive(Clone, Copy, Debug)]
pub struct Amount {
    mantissa: i128,
    scale: u32,
}

impl View for Amount {
    type V = int;

    /// The amount counted in units of `10^-28`.
    open spec fn view(&self) -> int {
        units(self.spec_mantissa(), self.spec_scale())
    }
}

/// Multiplies `m` by `10^k` if the product is still a valid mantissa.
fn scale_up(m: i128, k: u32) -> (r: Option<i128>)
    requires
        in_range(m as int),
        k <= MAX_SCALE,
    ensures
        r is Some <==> in_range(m * pow10(k as nat)),
        r matches Some(v) ==> v == m * pow10(k as nat),
{
    let mut cur: i128 = m;
    let mut i: u32 = 0;
    while i < k
        invariant
            i <= k <= MAX_SCALE,
            in_range(cur as int),
            cur == m * pow10(i as nat),
        decreases k - i,
    {
        let next: i128 = cur * 10;
        proof {
            assert(pow10((i + 1) as nat) == 10 * pow10(i as nat));
            assert(next == m * pow10((i + 1) as nat)) by (nonlinear_arith)
                requires
                    next == cur * 10,
                    cur == m * pow10(i as nat),
                    pow10((i + 1) as nat) == 10 * pow10(i as nat),
            ;
        }
        if next > MAX_MANTISSA || next < -MAX_MANTISSA {
            proof {
                lemma_scaled_grows(m as int, (i + 1) as nat, k as nat);
                lemma_pow10_positive((i + 1) as nat);
                assert(next > 0 ==> m >= 0) by (nonlinear_arith)
                    requires
                        next == m * pow10((i + 1) as nat),
                        pow10((i + 1) as nat) >= 1,
                ;
                assert(next < 0 ==> m <= 0) by (nonlinear_arith)
                    requires
                        next == m * pow10((i + 1) as nat),
                        pow10((i + 1) as nat) >= 1,
                ;
            }
            return None;
        }
        cur = next;
        i = i + 1;
    }
    Some(cur)
}

impl Amount {
    /// The mantissa and the scale are within what 96 bits and 28 digits hold.
    pub open spec fn wf(&self) -> bool {
        &&& in_range(self.spec_mantissa())
        &&& self.spec_scale() <= MAX_SCALE
    }

    /// The signed integer whose last `scale` digits are fractional.
    pub closed spec fn spec_mantissa(&self) -> int {
        self.mantissa as int
    }

    /// The number of fractional digits.
    pub closed spec fn spec_scale(&self) -> nat {
        self.scale as nat
    }

    /// Both amounts, and their sum, can be written exactly at the larger of
    /// the two scales.
    pub open spec fn sum_fits(&self, other: &Amount) -> bool {
        sum_representable(
            self.spec_mantissa(),
            self.spec_scale(),
            other.spec_mantissa(),
            other.spec_scale(),
        )
    }

    /// Both amounts, and their difference, can be written exactly at the
    /// larger of the two scales.
    pub open spec fn difference_fits(&self, other: &Amount) -> bool {
        difference_representable(
            self.spec_mantissa(),
            self.spec_scale(),
            other.spec_mantissa(),
            other.spec_scale(),
        )
    }

    /// The sum as the decimal arithmetic writes it, where it is exact.
    pub closed spec fn spec_add(self, other: Amount) -> Option<Amount> {
        if self.sum_fits(&other) {
            match decimal_sum_parts(self.mantissa, self.scale, other.mantissa, other.scale) {
                Some((m, s)) => Some(Amount { mantissa: m, scale: s }),
                None => None,
            }
        } else {
            None
        }
    }

    /// The difference as the decimal arithmetic writes it, where it is
    /// exact.
    pub closed spec fn spec_sub(self, other: Amount) -> Option<Amount> {
        if self.difference_fits(&other) {
            match decimal_difference_parts(
                self.mantissa,
                self.scale,
                other.mantissa,
                other.scale,
            ) {
                Some((m, s)) => Some(Amount { mantissa: m, scale: s }),
                None => None,
            }
        } else {
            None
        }
    }

    /// The amount `mantissa / 10^scale`, or `None` where the mantissa needs
    /// more than 96 bits or the scale is above 28.
    pub fn new(mantissa: i128, scale: u32) -> (r: Option<Amount>)
        ensures
            r is Some <==> in_range(mantissa as int) && scale <= MAX_SCALE,
            r matches Some(a) ==> a.wf() && a.spec_mantissa() == mantissa && a.spec_scale()
                == scale,
    {
        if scale <= MAX_SCALE && mantissa <= MAX_MANTISSA && mantissa >= -MAX_MANTISSA {
            Some(Amount { mantissa, scale })
        } else {
            None
        }
    }

    /// Zero, with no fractional digits.
    pub closed spec fn spec_zero() -> Amount {
        Amount { mantissa: 0, scale: 0 }
    }

    /// Zero, with no fractional digits.
    pub fn zero() -> (r: Amount)
        ensures
            r == Amount::spec_zero(),
            r.wf(),
            r@ == 0,
            r.spec_mantissa() == 0,
            r.spec_scale() == 0,
    {
        Amount { mantissa: 0, scale: 0 }
    }

    /// The signed integer whose last `scale` digits are fractional.
    pub fn mantissa(&self) -> (r: i128)
        ensures
            r == self.spec_mantissa(),
    {
        self.mantissa
    }

    /// The number of fractional digits.
    pub fn scale(&self) -> (r: u32)
        ensures
            r == self.spec_scale(),
    {
        self.scale
    }

    /// Whether the amount is strictly above zero.
    pub fn is_positive(&self) -> (r: bool)
        requires
            self.wf(),
        ensures
            r == (self@ > 0),
    {
        proof {
            let p = pow10((MAX_SCALE - self.spec_scale()) as nat);
            lemma_pow10_positive((MAX_SCALE - self.spec_scale()) as nat);
            let m = self.spec_mantissa();
            assert((m > 0) == (m * p > 0)) by (nonlinear_arith)
                requires
                    p >= 1,
            ;
        }
        self.mantissa > 0
    }

    /// Whether this amount is at most `other`.
    pub fn le(&self, other: &Amount) -> (r: bool)
        requires
            self.wf(),
            other.wf(),
        ensures
            r == (self@ <= other@),
    {
        decimal_le(self.mantissa, self.scale, other.mantissa, other.scale)
    }

    /// Whether both amounts are the same number, whatever their scales.
    pub fn same_value(&self, other: &Amount) -> (r: bool)
        requires
            self.wf(),
            other.wf(),
        ensures
            r == (self@ == other@),
    {
        self.le(other) && other.le(self)
    }

    /// The amount rounded to four fractional digits, as decimal text.
    pub fn to_text(&self) -> (r: String)
        requires
            self.wf(),
        ensures
            r@ == four_digit_text(self.spec_mantissa(), self.spec_scale()),
    {
        decimal_text(self.mantissa, self.scale)
    }

    /// The exact sum, or `None` where it cannot be written at the larger of
    /// the two scales: beyond that the decimal arithmetic would round or
    /// fail, and this function refuses both.
    pub fn checked_add(&self, other: &Amount) -> (r: Option<Amount>)
        requires
            self.wf(),
            other.wf(),
        ensures
            r == self.spec_add(*other),
            r is Some <==> self.sum_fits(other),
            r matches Some(x) ==> x.wf() && x@ == self@ + other@,
    {
        let s: u32 = if self.scale >= other.scale {
            self.scale
        } else {
            other.scale
        };
        let a = scale_up(self.mantissa, s - self.scale);
        let b = scale_up(other.mantissa, s - other.scale);
        match (a, b) {
            (Some(x), Some(y)) => {
                let sum: i128 = x + y;
                if sum <= MAX_MANTISSA && sum >= -MAX_MANTISSA {
                    let (m, sc) = decimal_sum(
                        self.mantissa,
                        self.scale,
                        other.mantissa,
                        other.scale,
                    )?;
                    Some(Amount { mantissa: m, scale: sc })
                } else {
                    None
                }
            },
            _ => None,
        }
    }

    /// The exact difference, or `None` where it cannot be written at the
    /// larger of the two scales: beyond that the decimal arithmetic would
    /// round or fail, and this function refuses both.
    pub fn checked_sub(&self, other: &Amount) -> (r: Option<Amount>)
        requires
            self.wf(),
            other.wf(),
        ensures
            r == self.spec_sub(*other),
            r is Some <==> self.difference_fits(other),
            r matches Some(x) ==> x.wf() && x@ == self@ - other@,
    {
        let s: u32 = if self.scale >= other.scale {
            self.scale
        } else {
            other.scale
        };
        let a = scale_up(self.mantissa, s - self.scale);
        let b = scale_up(other.mantissa, s - other.scale);
        match (a, b) {
            (Some(x), Some(y)) => {
                let diff: i128 = x - y;
                if diff <= MAX_MANTISSA && diff >= -MAX_MANTISSA {
                    let (m, sc) = decimal_difference(
                        self.mantissa,
                        self.scale,
                        other.mantissa,
                        other.scale,
                    )?;
                    Some(Amount { mantissa: m, scale: sc })
                } else {
                    None
                }
            },
            _ => None,
        }
    }
}

/// The number `m / 10^s` counted in units of `10^-28`.
pub open spec fn units(m: int, s: nat) -> int {
    m * pow10((MAX_SCALE - s) as nat)
}

/// `m` written with `t - s` more fractional digits.
pub open spec fn rescaled(m: int, s: nat, t: nat) -> int {
    m * pow10((t - s) as nat)
}

/// Both numbers, and their sum, have a valid mantissa at the larger scale.
pub open spec fn sum_representable(m1: int, s1: nat, m2: int, s2: nat) -> bool {
    let t = if s1 >= s2 { s1 } else { s2 };
    &&& in_range(rescaled(m1, s1, t))
    &&& in_range(rescaled(m2, s2, t))
    &&& in_range(rescaled(m1, s1, t) + rescaled(m2, s2, t))
}

/// Both numbers, and their difference, have a valid mantissa at the larger
/// scale.
pub open spec fn difference_representable(m1: int, s1: nat, m2: int, s2: nat) -> bool {
    let t = if s1 >= s2 { s1 } else { s2 };
    &&& in_range(rescaled(m1, s1, t))
    &&& in_range(rescaled(m2, s2, t))
    &&& in_range(rescaled(m1, s1, t) - rescaled(m2, s2, t))
}

/// The mantissa and scale of what `rust_decimal` gives as the sum of
/// `m1 / 10^s1` and `m2 / 10^s2`, or `None` where it gives none.
pub uninterp spec fn decimal_sum_parts(m1: i128, s1: u32, m2: i128, s2: u32) -> Option<
    (i128, u32),
>;

/// The mantissa and scale of what `rust_decimal` gives as `m1 / 10^s1` less
/// `m2 / 10^s2`, or `None` where it gives none.
pub uninterp spec fn decimal_difference_parts(m1: i128, s1: u32, m2: i128, s2: u32) -> Option<
    (i128, u32),
>;

/// The text that `rust_decimal` writes for the decimal `mantissa / 10^scale`
/// once it is rounded to four fractional digits.
pub uninterp spec fn four_digit_text(mantissa: int, scale: nat) -> Seq<char>;

/// Calls `rust_decimal::Decimal::round_dp` with four digits on the decimal
/// built from the mantissa and scale, and formats the result with four
/// fractional digits. The text depends on the mantissa and scale alone.
#[verifier::external_body]
fn decimal_text(m: i128, s: u32) -> (r: String)
    requires
        in_range(m as int),
        s <= MAX_SCALE,
    ensures
        r@ == four_digit_text(m as int, s as nat),
{
    format!("{:.4}", Decimal::from_i128_with_scale(m, s).round_dp(4))
}

/// Calls `rust_decimal::Decimal`'s `<=` on the two decimals built from the
/// given mantissas and scales. The comparison is by numeric value: the crate
/// aligns the scales before it compares the mantissas.
#[verifier::external_body]
fn decimal_le(m1: i128, s1: u32, m2: i128, s2: u32) -> (r: bool)
    requires
        in_range(m1 as int),
        in_range(m2 as int),
        s1 <= MAX_SCALE,
        s2 <= MAX_SCALE,
    ensures
        r == (units(m1 as int, s1 as nat) <= units(m2 as int, s2 as nat)),
{
    Decimal::from_i128_with_scale(m1, s1) <= Decimal::from_i128_with_scale(m2, s2)
}

/// Calls `rust_decimal::Decimal::checked_add` and hands back the mantissa and
/// scale of the result, which depend on the operands alone. Where both
/// operands and their sum fit in 96 bits at the larger of the two scales, the
/// crate adds without rounding, so the result is the exact sum. Any decimal
/// it returns has a 96-bit mantissa and a scale of at most 28.
#[verifier::external_body]
fn decimal_sum(m1: i128, s1: u32, m2: i128, s2: u32) -> (r: Option<(i128, u32)>)
    requires
        in_range(m1 as int),
        in_range(m2 as int),
        s1 <= MAX_SCALE,
        s2 <= MAX_SCALE,
    ensures
        r == decimal_sum_parts(m1, s1, m2, s2),
        r matches Some((m, s)) ==> in_range(m as int) && s <= MAX_SCALE,
        sum_representable(m1 as int, s1 as nat, m2 as int, s2 as nat) ==> r is Some,
        r matches Some((m, s)) ==> (sum_representable(m1 as int, s1 as nat, m2 as int, s2 as nat)
            ==> units(m as int, s as nat) == units(m1 as int, s1 as nat) + units(
            m2 as int,
            s2 as nat,
        )),
{
    let a = Decimal::from_i128_with_scale(m1, s1);
    let b = Decimal::from_i128_with_scale(m2, s2);
    a.checked_add(b).map(|d| (d.mantissa(), d.scale()))
}

/// Calls `rust_decimal::Decimal::checked_sub` and hands back the mantissa and
/// scale of the result, which depend on the operands alone. Where both
/// operands and their difference fit in 96 bits at the larger of the two
/// scales, the crate subtracts without rounding, so the result is the exact
/// difference. Any decimal it returns has a 96-bit mantissa and a scale of at
/// most 28.
#[verifier::external_body]
fn decimal_difference(m1: i128, s1: u32, m2: i128, s2: u32) -> (r: Option<(i128, u32)>)
    requires
        in_range(m1 as int),
        in_range(m2 as int),
        s1 <= MAX_SCALE,
        s2 <= MAX_SCALE,
    ensures
        r == decimal_difference_parts(m1, s1, m2, s2),
        r matches Some((m, s)) ==> in_range(m as int) && s <= MAX_SCALE,
        difference_representable(m1 as int, s1 as nat, m2 as int, s2 as nat) ==> r is Some,
        r matches Some((m, s)) ==> (difference_representable(
            m1 as int,
            s1 as nat,
            m2 as int,
            s2 as nat,
        ) ==> units(m as int, s as nat) == units(m1 as int, s1 as nat) - units(
            m2 as int,
            s2 as nat,
        )),
{
    let a = Decimal::from_i128_with_scale(m1, s1);
    let b = Decimal::from_i128_with_scale(m2, s2);
    a.checked_sub(b).map(|d| (d.mantissa(), d.scale()))
}

} // verus!
