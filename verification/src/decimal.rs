//! Decimal numbers.

use vstd::arithmetic::div_mod::lemma_mod_multiples_basic;
use vstd::arithmetic::power::{lemma_pow1, lemma_pow_adds, lemma_pow_positive, pow};
use vstd::prelude::*;

verus! {

/// The most digits that a decimal number can have behind its point.
pub const MAX_SCALE: u32 = 28;

/// A decimal number: a 96-bit integer, a sign, and the number of digits behind the point.
///
/// Equality compares the numbers, so `1.0` equals `1.00`.
#[derive(Debug, Clone, Copy)]
pub struct Decimal {
    lo: u32,
    mid: u32,
    hi: u32,
    negative: bool,
    scale: u32,
}

/// What a [`Decimal`] holds.
pub struct DecimalView {
    pub lo: u32,
    pub mid: u32,
    pub hi: u32,
    pub negative: bool,
    pub scale: u32,
}

impl DecimalView {
    /// The digits without point and sign.
    pub open spec fn mantissa(self) -> int {
        self.lo + 0x1_0000_0000 * self.mid + 0x1_0000_0000_0000_0000 * self.hi
    }

    /// The number in units of its smallest possible part, `10^-28`.
    pub open spec fn units(self) -> int {
        let magnitude = self.mantissa() * pow(
            10,
            (MAX_SCALE - self.scale) as nat,
        );
        if self.negative {
            -magnitude
        } else {
            magnitude
        }
    }
}

/// Whether two decimals are the same number.
pub open spec fn same_decimal(a: DecimalView, b: DecimalView) -> bool {
    a.units() == b.units()
}

impl DecimalView {
    /// The decimal with the parts `lo`, `mid`, `hi`, `negative` and `scale`.
    pub open spec fn of_parts(parts: (u32, u32, u32, bool, u32)) -> DecimalView {
        DecimalView {
            lo: parts.0,
            mid: parts.1,
            hi: parts.2,
            negative: parts.3,
            scale: parts.4,
        }
    }

    /// Whether no digit behind the point can be dropped, and a zero has no sign.
    pub open spec fn is_normal(self) -> bool {
        &&& self.scale <= MAX_SCALE
        &&& self.mantissa() == 0 ==> self.scale == 0 && !self.negative
        &&& self.scale > 0 ==> self.mantissa() % 10 != 0
    }

    /// The form without needless digits of the same number.
    pub open spec fn normal_form(self) -> DecimalView {
        normal_form_of(self.units())
    }
}

/// The form without needless digits of the number with the given units.
pub open spec fn normal_form_of(units: int) -> DecimalView {
    choose|normal: DecimalView| #[trigger] normal.is_normal() && normal.units() == units
}

/// Brings a decimal to its form without needless digits with `rust_decimal::Decimal::normalize`,
/// and gives the parts `lo`, `mid`, `hi`, `negative` and `scale` that
/// `rust_decimal::Decimal::unpack` names. `rust_decimal::Decimal::from_parts` panics on a scale
/// above 28.
///
/// The result is the same number with the zeros at its end stripped, and `-0` made `0`.
#[verifier::external_body]
fn decimal_normalize(value: Decimal) -> (parts: (u32, u32, u32, bool, u32))
    requires
        value@.scale <= 28,
    ensures
        DecimalView::of_parts(parts).is_normal(),
        same_decimal(DecimalView::of_parts(parts), value@),
{
    let normal = rust_decimal::Decimal::from_parts(
        value.lo,
        value.mid,
        value.hi,
        value.negative,
        value.scale,
    ).normalize().unpack();
    (normal.lo, normal.mid, normal.hi, normal.negative, normal.scale)
}

/// Compares two decimals with the `==` of `rust_decimal::Decimal`, each made by
/// `rust_decimal::Decimal::from_parts`, which panics on a scale above 28.
///
/// Two such values are equal exactly when they are the same number, whatever their scales; a zero
/// has no sign.
#[verifier::external_body]
fn decimal_eq(a: Decimal, b: Decimal) -> (equal: bool)
    requires
        a@.scale <= 28,
        b@.scale <= 28,
    ensures
        equal == same_decimal(a@, b@),
{
    rust_decimal::Decimal::from_parts(a.lo, a.mid, a.hi, a.negative, a.scale)
        == rust_decimal::Decimal::from_parts(b.lo, b.mid, b.hi, b.negative, b.scale)
}

impl View for Decimal {
    type V = DecimalView;

    closed spec fn view(&self) -> DecimalView {
        DecimalView {
            lo: self.lo,
            mid: self.mid,
            hi: self.hi,
            negative: self.negative,
            scale: self.scale,
        }
    }
}

impl Decimal {
    #[verifier::type_invariant]
    spec fn scale_in_range(self) -> bool {
        self.scale <= MAX_SCALE
    }

    /// The decimal with the given 96-bit integer, sign and scale.
    pub fn from_parts(lo: u32, mid: u32, hi: u32, negative: bool, scale: u32) -> (value: Decimal)
        requires
            scale <= MAX_SCALE,
        ensures
            value@ == (DecimalView { lo, mid, hi, negative, scale }),
    {
        Decimal { lo, mid, hi, negative, scale }
    }

    /// The same number without needless digits behind the point, and without the sign of a zero.
    pub fn normalize(&self) -> (normal: Decimal)
        ensures
            normal@ == self@.normal_form(),
            normal@.is_normal(),
            same_decimal(normal@, self@),
    {
        proof {
            use_type_invariant(self);
        }
        let (lo, mid, hi, negative, scale) = decimal_normalize(*self);
        let normal = Decimal { lo, mid, hi, negative, scale };
        proof {
            law_normal_form_is_unique(normal@, self@.normal_form());
        }
        normal
    }

    /// The low 32 bits of the integer.
    pub fn lo(&self) -> (part: u32)
        ensures
            part == self@.lo,
    {
        self.lo
    }

    /// The middle 32 bits of the integer.
    pub fn mid(&self) -> (part: u32)
        ensures
            part == self@.mid,
    {
        self.mid
    }

    /// The high 32 bits of the integer.
    pub fn hi(&self) -> (part: u32)
        ensures
            part == self@.hi,
    {
        self.hi
    }

    /// Whether the sign is negative.
    pub fn is_sign_negative(&self) -> (negative: bool)
        ensures
            negative == self@.negative,
    {
        self.negative
    }

    /// The number of digits behind the point.
    pub fn scale(&self) -> (scale: u32)
        ensures
            scale == self@.scale,
            scale <= MAX_SCALE,
    {
        proof {
            use_type_invariant(self);
        }
        self.scale
    }
}

impl PartialEq for Decimal {
    fn eq(&self, other: &Self) -> (equal: bool) {
        proof {
            use_type_invariant(self);
            use_type_invariant(other);
        }
        decimal_eq(*self, *other)
    }
}

impl vstd::std_specs::cmp::PartialEqSpecImpl for Decimal {
    open spec fn obeys_eq_spec() -> bool {
        true
    }

    open spec fn eq_spec(&self, other: &Self) -> bool {
        same_decimal(self@, other@)
    }
}

impl Eq for Decimal {

}

/// Of the ways to write a number, one is without needless digits.
pub proof fn law_normal_form_is_unique(a: DecimalView, b: DecimalView)
    requires
        a.is_normal(),
        b.is_normal(),
        same_decimal(a, b),
    ensures
        a == b,
{
    let (p, q) = (
        pow(10, (MAX_SCALE - a.scale) as nat),
        pow(10, (MAX_SCALE - b.scale) as nat),
    );
    lemma_pow_positive(10, (MAX_SCALE - a.scale) as nat);
    lemma_pow_positive(10, (MAX_SCALE - b.scale) as nat);
    lemma_magnitude_sign(a.mantissa(), p);
    lemma_magnitude_sign(b.mantissa(), q);
    if a.mantissa() == 0 || b.mantissa() == 0 {
        assert(a.mantissa() == 0 && b.mantissa() == 0);
    } else {
        assert(a.mantissa() * p == b.mantissa() * q);
        if a.scale < b.scale {
            lemma_longer_ends_in_zero(a, b);
        } else if b.scale < a.scale {
            lemma_longer_ends_in_zero(b, a);
        } else {
            assert(a.mantissa() == b.mantissa()) by (nonlinear_arith)
                requires
                    a.mantissa() * p == b.mantissa() * p,
                    p > 0,
            ;
        }
    }
}

/// A product with a positive factor is zero when the other factor is, and positive when it is.
proof fn lemma_magnitude_sign(mantissa: int, factor: int)
    by (nonlinear_arith)
    requires
        factor > 0,
        mantissa >= 0,
    ensures
        mantissa * factor == 0 <==> mantissa == 0,
        mantissa * factor >= 0,
{
}

/// Of two ways to write one magnitude, the one with more digits behind the point ends in zero.
proof fn lemma_longer_ends_in_zero(short: DecimalView, long: DecimalView)
    requires
        short.scale < long.scale <= MAX_SCALE,
        short.mantissa() * pow(10, (MAX_SCALE - short.scale) as nat) == long.mantissa() * pow(
            10,
            (MAX_SCALE - long.scale) as nat,
        ),
    ensures
        long.mantissa() % 10 == 0,
{
    let more = (long.scale - short.scale) as nat;
    let rest = (MAX_SCALE - long.scale) as nat;
    lemma_pow_adds(10, more, rest);
    lemma_pow_positive(10, rest);
    let (s, l, m, r) = (short.mantissa(), long.mantissa(), pow(10, more), pow(10, rest));
    assert(l == s * m) by (nonlinear_arith)
        requires
            s * (m * r) == l * r,
            r > 0,
    ;
    lemma_pow_adds(10, 1, (more - 1) as nat);
    lemma_pow1(10);
    let t = pow(10, (more - 1) as nat);
    assert(s * (10 * t) == (s * t) * 10) by (nonlinear_arith);
    lemma_mod_multiples_basic(s * t, 10);
}

/// Every number can be written without needless digits.
pub proof fn law_normal_form_exists(value: DecimalView)
    requires
        value.scale <= MAX_SCALE,
    ensures
        value.normal_form().is_normal(),
        same_decimal(value.normal_form(), value),
    decreases value.scale,
{
    let m = value.mantissa();
    if m == 0 {
        let zero = DecimalView { lo: 0, mid: 0, hi: 0, negative: false, scale: 0 };
        assert(zero.is_normal());
        assert(same_decimal(zero, value)) by {
            assert(zero.mantissa() * pow(10, MAX_SCALE as nat) == 0) by (nonlinear_arith)
                requires
                    zero.mantissa() == 0,
            ;
            assert(m * pow(10, (MAX_SCALE - value.scale) as nat) == 0) by (nonlinear_arith)
                requires
                    m == 0,
            ;
        }
    } else if value.scale == 0 || m % 10 != 0 {
        assert(value.is_normal());
    } else {
        let q = m / 10;
        let shorter = DecimalView {
            lo: (q % 0x1_0000_0000) as u32,
            mid: ((q / 0x1_0000_0000) % 0x1_0000_0000) as u32,
            hi: (q / 0x1_0000_0000_0000_0000) as u32,
            negative: value.negative,
            scale: (value.scale - 1) as u32,
        };
        assert(shorter.mantissa() == q);
        let rest = (MAX_SCALE - value.scale) as nat;
        lemma_pow_adds(10, 1, rest);
        lemma_pow1(10);
        let r = pow(10, rest);
        assert(q * (10 * r) == (10 * q) * r) by (nonlinear_arith);
        assert(same_decimal(shorter, value));
        law_normal_form_exists(shorter);
        assert(shorter.normal_form().is_normal() && same_decimal(shorter.normal_form(), value));
    }
}

/// Decimals are equal exactly when their forms without needless digits are.
pub proof fn law_normal_form(a: DecimalView, b: DecimalView)
    requires
        a.scale <= MAX_SCALE,
        b.scale <= MAX_SCALE,
    ensures
        same_decimal(a, b) <==> a.normal_form() == b.normal_form(),
{
    law_normal_form_exists(a);
    law_normal_form_exists(b);
    if same_decimal(a, b) {
        law_normal_form_is_unique(a.normal_form(), b.normal_form());
    }
}

} // verus!
