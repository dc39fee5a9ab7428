//! Fixed-point decimal amounts.
//!
//! An amount is a signed mantissa of at most 96 bits and a scale of at most
//! 28 decimal places; its value is `mantissa / 10^scale`. Sums and
//! differences are computed by `rust_decimal`, so that totals round and
//! rescale exactly as that crate does.

use vstd::prelude::*;

verus! {

/// The largest magnitude a mantissa may have: `2^96 - 1`.
pub const MAX_MANTISSA: i128 = 0x0000_0000_FFFF_FFFF_FFFF_FFFF_FFFF_FFFF;

/// The largest scale.
pub const MAX_SCALE: u32 = 28;

/// What `rust_decimal::Decimal::checked_add` returns for the decimals with
/// the given mantissas and scales: the mantissa and scale of the sum, or
/// `None` where the sum cannot be represented.
pub uninterp spec fn decimal_sum(
    left_mantissa: i128,
    left_scale: u32,
    right_mantissa: i128,
    right_scale: u32,
) -> Option<(i128, u32)>;

/// What `rust_decimal::Decimal::checked_sub` returns for the decimals with
/// the given mantissas and scales: the mantissa and scale of the difference,
/// or `None` where it cannot be represented.
pub uninterp spec fn decimal_difference(
    left_mantissa: i128,
    left_scale: u32,
    right_mantissa: i128,
    right_scale: u32,
) -> Option<(i128, u32)>;

/// A fixed-point decimal amount.
#[derive(Clone, Copy, Debug, PartialEq, Eq, Structural, Hash)]
pub struct Money {
    mantissa: i128,
    scale: u32,
}

impl Money {
    #[verifier::type_invariant]
    spec fn in_range(self) -> bool {
        &&& -MAX_MANTISSA <= self.mantissa <= MAX_MANTISSA
        &&& self.scale <= MAX_SCALE
    }

    /// The mantissa of the amount.
    pub closed spec fn spec_mantissa(self) -> i128 {
        self.mantissa
    }

    /// The number of decimal places of the amount.
    pub closed spec fn spec_scale(self) -> u32 {
        self.scale
    }

    /// The amount with the given mantissa and scale.
    pub closed spec fn of(mantissa: i128, scale: u32) -> Money {
        Money { mantissa, scale }
    }

    /// The sum of two amounts as `rust_decimal` computes it, `None` on
    /// overflow.
    pub closed spec fn spec_checked_add(self, other: Money) -> Option<Money> {
        match decimal_sum(self.mantissa, self.scale, other.mantissa, other.scale) {
            Some((mantissa, scale)) => Some(Money { mantissa, scale }),
            None => None,
        }
    }

    /// The difference of two amounts as `rust_decimal` computes it, `None`
    /// on overflow.
    pub closed spec fn spec_checked_sub(self, other: Money) -> Option<Money> {
        match decimal_difference(self.mantissa, self.scale, other.mantissa, other.scale) {
            Some((mantissa, scale)) => Some(Money { mantissa, scale }),
            None => None,
        }
    }

    /// `num / 10^scale`, for a scale of at most 28.
    pub fn new(num: i64, scale: u32) -> (amount: Money)
        requires
            scale <= MAX_SCALE,
        ensures
            amount == Money::of(num as i128, scale),
    {
        Money { mantissa: num as i128, scale }
    }

    /// `mantissa / 10^scale` where that is a decimal: the mantissa fits in
    /// 96 bits and the scale is at most 28.
    pub fn try_from_parts(mantissa: i128, scale: u32) -> (r: Option<Money>)
        ensures
            r == if -MAX_MANTISSA <= mantissa <= MAX_MANTISSA && scale <= MAX_SCALE {
                Some(Money::of(mantissa, scale))
            } else {
                None
            },
    {
        if -MAX_MANTISSA <= mantissa && mantissa <= MAX_MANTISSA && scale <= MAX_SCALE {
            Some(Money { mantissa, scale })
        } else {
            None
        }
    }

    /// Zero, with no decimal places.
    pub fn zero() -> (amount: Money)
        ensures
            amount == Money::of(0, 0),
    {
        Money { mantissa: 0, scale: 0 }
    }

    /// The mantissa of the amount.
    pub fn mantissa(&self) -> (m: i128)
        ensures
            m == self.spec_mantissa(),
            -MAX_MANTISSA <= m <= MAX_MANTISSA,
    {
        proof {
            use_type_invariant(self);
        }
        self.mantissa
    }

    /// The number of decimal places of the amount.
    pub fn scale(&self) -> (s: u32)
        ensures
            s == self.spec_scale(),
            s <= MAX_SCALE,
    {
        proof {
            use_type_invariant(self);
        }
        self.scale
    }

    /// The sum of two amounts, `None` where it overflows.
    pub fn checked_add(self, other: Money) -> (r: Option<Money>)
        ensures
            r == self.spec_checked_add(other),
    {
        proof {
            use_type_invariant(&self);
            use_type_invariant(&other);
        }
        match decimal_checked_add(self.mantissa, self.scale, other.mantissa, other.scale) {
            Some((mantissa, scale)) => Some(Money { mantissa, scale }),
            None => None,
        }
    }

    /// The difference of two amounts, `None` where it overflows.
    pub fn checked_sub(self, other: Money) -> (r: Option<Money>)
        ensures
            r == self.spec_checked_sub(other),
    {
        proof {
            use_type_invariant(&self);
            use_type_invariant(&other);
        }
        match decimal_checked_sub(self.mantissa, self.scale, other.mantissa, other.scale) {
            Some((mantissa, scale)) => Some(Money { mantissa, scale }),
            None => None,
        }
    }
}

impl Default for Money {
    fn default() -> (amount: Money)
        ensures
            amount == Money::of(0, 0),
    {
        Money { mantissa: 0, scale: 0 }
    }
}

/// The sum of a list of amounts, added from zero in the order of the list;
/// `None` where a sum overflows.
pub open spec fn sum_of(amounts: Seq<Money>) -> Option<Money>
    decreases amounts.len(),
{
    if amounts.len() == 0 {
        Some(Money::of(0, 0))
    } else {
        match sum_of(amounts.drop_last()) {
            Some(sum) => sum.spec_checked_add(amounts.last()),
            None => None,
        }
    }
}

/// Where a list of amounts has a sum, so has every prefix of it.
pub proof fn lemma_sum_of_prefix(amounts: Seq<Money>, n: int)
    requires
        0 <= n <= amounts.len(),
        sum_of(amounts) is Some,
    ensures
        sum_of(amounts.take(n)) is Some,
    decreases amounts.len(),
{
    if n == amounts.len() {
        assert(amounts.take(n) == amounts);
    } else {
        assert(amounts.drop_last().take(n) == amounts.take(n));
        lemma_sum_of_prefix(amounts.drop_last(), n);
    }
}

/// The sum of a list of amounts, `None` where it overflows.
pub fn sum(amounts: &Vec<Money>) -> (r: Option<Money>)
    ensures
        r == sum_of(amounts@),
{
    let mut total = Money::zero();
    let mut i: usize = 0;
    while i < amounts.len()
        invariant
            i <= amounts@.len(),
            Some(total) == sum_of(amounts@.take(i as int)),
        decreases amounts@.len() - i,
    {
        proof {
            assert(amounts@.take(i + 1).drop_last() == amounts@.take(i as int));
        }
        total = match total.checked_add(amounts[i]) {
            Some(next) => next,
            None => {
                proof {
                    if sum_of(amounts@) is Some {
                        lemma_sum_of_prefix(amounts@, i + 1);
                    }
                }
                return None;
            },
        };
        i += 1;
    }
    assert(amounts@.take(i as int) == amounts@);
    Some(total)
}

/// Adds two decimals with `rust_decimal::Decimal::checked_add`. The operands
/// are built with `Decimal::from_i128_with_scale`, which accepts every
/// mantissa of at most 96 bits with a scale of at most 28; the result is read
/// back with `mantissa` and `scale`, which stay within those bounds.
#[verifier::external_body]
fn decimal_checked_add(
    left_mantissa: i128,
    left_scale: u32,
    right_mantissa: i128,
    right_scale: u32,
) -> (r: Option<(i128, u32)>)
    requires
        -MAX_MANTISSA <= left_mantissa <= MAX_MANTISSA,
        left_scale <= MAX_SCALE,
        -MAX_MANTISSA <= right_mantissa <= MAX_MANTISSA,
        right_scale <= MAX_SCALE,
    ensures
        r == decimal_sum(left_mantissa, left_scale, right_mantissa, right_scale),
        r matches Some((m, s)) ==> -MAX_MANTISSA <= m <= MAX_MANTISSA && s <= MAX_SCALE,
{
    let left = rust_decimal::Decimal::from_i128_with_scale(left_mantissa, left_scale);
    let right = rust_decimal::Decimal::from_i128_with_scale(right_mantissa, right_scale);
    match left.checked_add(right) {
        Some(sum) => Some((sum.mantissa(), sum.scale())),
        None => None,
    }
}

/// Subtracts two decimals with `rust_decimal::Decimal::checked_sub`, with
/// the same conversions as for the sum.
#[verifier::external_body]
fn decimal_checked_sub(
    left_mantissa: i128,
    left_scale: u32,
    right_mantissa: i128,
    right_scale: u32,
) -> (r: Option<(i128, u32)>)
    requires
        -MAX_MANTISSA <= left_mantissa <= MAX_MANTISSA,
        left_scale <= MAX_SCALE,
        -MAX_MANTISSA <= right_mantissa <= MAX_MANTISSA,
        right_scale <= MAX_SCALE,
    ensures
        r == decimal_difference(left_mantissa, left_scale, right_mantissa, right_scale),
        r matches Some((m, s)) ==> -MAX_MANTISSA <= m <= MAX_MANTISSA && s <= MAX_SCALE,
{
    let left = rust_decimal::Decimal::from_i128_with_scale(left_mantissa, left_scale);
    let right = rust_decimal::Decimal::from_i128_with_scale(right_mantissa, right_scale);
    match left.checked_sub(right) {
        Some(difference) => Some((difference.mantissa(), difference.scale())),
        None => None,
    }
}

} // verus!
