//! Saturating fixed-point scalars.
//!
//! A [`Fixed`] stores a signed 32-bit numerator `raw` and denotes the rational
//! number `raw / 65536`. Every operation is total: a result that does not fit
//! is clamped to the nearest representable value, and the two extreme values
//! play the role of the infinities. Quotients are rounded towards negative
//! infinity. The contracts are stated over the numerators as mathematical
//! integers.

use vstd::arithmetic::div_mod::lemma_fundamental_div_mod;
use vstd::arithmetic::div_mod::lemma_fundamental_div_mod_converse;
use vstd::prelude::*;
use vstd::string::StringExecFns;

verus! {

/// Numerator of the scalar one.
pub const SCALE: i32 = 65536;

/// Largest numerator; it stands for positive infinity.
pub const RAW_MAX: i32 = 2147483647;

/// Smallest numerator; it stands for negative infinity.
pub const RAW_MIN: i32 = -2147483648;

/// The nearest representable numerator to `x`.
pub open spec fn clamp_raw(x: int) -> int {
    if x < RAW_MIN as int {
        RAW_MIN as int
    } else if x > RAW_MAX as int {
        RAW_MAX as int
    } else {
        x
    }
}

/// Numerator of the sum.
pub open spec fn add_raw(a: int, b: int) -> int {
    clamp_raw(a + b)
}

/// Numerator of the difference.
pub open spec fn sub_raw(a: int, b: int) -> int {
    clamp_raw(a - b)
}

/// Numerator of the negation.
pub open spec fn neg_raw(a: int) -> int {
    clamp_raw(-a)
}

/// Numerator of the product, rounded down.
pub open spec fn mul_raw(a: int, b: int) -> int {
    clamp_raw((a * b) / (SCALE as int))
}

/// The quotient `num / den` rounded down, for any non-zero `den`.
pub open spec fn floor_quot(num: int, den: int) -> int {
    if den > 0 {
        num / den
    } else {
        (-num) / (-den)
    }
}

/// The quotient of two integers as a numerator: rounded down and clamped.
/// Division by zero saturates according to the sign of the dividend.
pub open spec fn quot_raw(num: int, den: int) -> int {
    if den == 0 {
        if num > 0 {
            RAW_MAX as int
        } else if num < 0 {
            RAW_MIN as int
        } else {
            0
        }
    } else {
        clamp_raw(floor_quot(num, den))
    }
}

/// Numerator of the quotient of two numerators, rounded down. Division by
/// zero saturates according to the sign of the dividend.
pub open spec fn div_raw(a: int, b: int) -> int {
    if b == 0 {
        if a > 0 {
            RAW_MAX as int
        } else if a < 0 {
            RAW_MIN as int
        } else {
            0
        }
    } else {
        clamp_raw(floor_quot(a * (SCALE as int), b))
    }
}

/// `r` is the integer square root of `n`, rounded down.
pub open spec fn is_isqrt(n: int, r: int) -> bool {
    0 <= r && r * r <= n && n < (r + 1) * (r + 1)
}

/// The integer square root of `n`, rounded down; zero for negative `n`.
pub open spec fn isqrt(n: int) -> int {
    if n <= 0 {
        0
    } else {
        choose|r: int| is_isqrt(n, r)
    }
}

/// Numerator of the square root, rounded down; zero for negative values.
pub open spec fn sqrt_raw(a: int) -> int {
    clamp_raw(isqrt(a * (SCALE as int)))
}

/// The numerator clamped to the unit interval.
pub open spec fn unit_raw(a: int) -> int {
    if a < 0 {
        0
    } else if a > SCALE as int {
        SCALE as int
    } else {
        a
    }
}

/// Numerator of `a` raised to the power `n` by repeated squaring, each
/// product rounded down.
pub open spec fn pow_raw(a: int, n: nat) -> int
    decreases n,
{
    if n == 0 {
        SCALE as int
    } else if n % 2 == 0 {
        pow_raw(mul_raw(a, a), n / 2)
    } else {
        mul_raw(a, pow_raw(mul_raw(a, a), n / 2))
    }
}

/// Numerator of `a` raised to the signed power `n`; a negative exponent gives
/// the reciprocal of the positive power.
pub open spec fn powi_raw(a: int, n: int) -> int {
    if n >= 0 {
        pow_raw(a, n as nat)
    } else {
        div_raw(SCALE as int, pow_raw(a, (-n) as nat))
    }
}

/// Two integers whose squares bracket `n` in the same way are equal.
pub proof fn lemma_isqrt_unique(n: int, r1: int, r2: int)
    requires
        is_isqrt(n, r1),
        is_isqrt(n, r2),
    ensures
        r1 == r2,
{
    if r1 < r2 {
        assert((r1 + 1) * (r1 + 1) <= r2 * r2) by (nonlinear_arith)
            requires
                0 <= r1,
                r1 + 1 <= r2,
        ;
    } else if r2 < r1 {
        assert((r2 + 1) * (r2 + 1) <= r1 * r1) by (nonlinear_arith)
            requires
                0 <= r2,
                r2 + 1 <= r1,
        ;
    }
}

/// A witness of the rounded-down square root is the square root.
pub proof fn lemma_isqrt_is(n: int, r: int)
    requires
        is_isqrt(n, r),
    ensures
        isqrt(n) == r,
{
    if n <= 0 {
        assert(r * r >= 0) by (nonlinear_arith);
        if r > 0 {
            assert(r * r > 0) by (nonlinear_arith)
                requires
                    r > 0,
            ;
        }
    } else {
        let c = choose|c: int| is_isqrt(n, c);
        lemma_isqrt_unique(n, r, c);
    }
}

/// Every integer that is not negative has a rounded-down square root, and
/// `isqrt` is that root.
pub proof fn lemma_isqrt_exists(n: int)
    requires
        n >= 0,
    ensures
        is_isqrt(n, isqrt(n)),
    decreases n,
{
    if n == 0 {
    } else {
        lemma_isqrt_exists(n - 1);
        let r = isqrt(n - 1);
        if n == (r + 1) * (r + 1) {
            assert(n < (r + 2) * (r + 2)) by (nonlinear_arith)
                requires
                    n == (r + 1) * (r + 1),
                    r >= 0,
            ;
            lemma_isqrt_is(n, r + 1);
        } else {
            lemma_isqrt_is(n, r);
        }
    }
}

/// The product of two bounded integers is bounded by the product of the
/// bounds.
pub proof fn lemma_mul_bound(a: int, b: int, ba: int, bb: int)
    requires
        -ba <= a <= ba,
        -bb <= b <= bb,
    ensures
        -(ba * bb) <= a * b <= ba * bb,
{
    assert(-(ba * bb) <= a * b <= ba * bb) by (nonlinear_arith)
        requires
            -ba <= a <= ba,
            -bb <= b <= bb,
    ;
}

/// Exact product of two wide integers whose magnitudes are bounded by `ba`
/// and `bb`.
pub(crate) fn mul_wide(a: i128, b: i128, Ghost(ba): Ghost<int>, Ghost(bb): Ghost<int>) -> (p: i128)
    requires
        -ba <= a <= ba,
        -bb <= b <= bb,
        ba * bb <= i128::MAX,
    ensures
        p == a * b,
        -(ba * bb) <= p <= ba * bb,
{
    proof {
        lemma_mul_bound(a as int, b as int, ba, bb);
    }
    a * b
}

/// Exact difference of two numerators.
pub fn diff_wide(a: Fixed, b: Fixed) -> (d: i128)
    ensures
        d == a@ - b@,
        -0x1_0000_0000 < d < 0x1_0000_0000,
{
    a.raw as i128 - b.raw as i128
}

/// Rounded-down division by a positive divisor.
pub fn div_floor(a: i128, b: i128) -> (q: i128)
    requires
        b > 0,
        a > i128::MIN,
    ensures
        q == a / b,
{
    if a >= 0 {
        a / b
    } else {
        let n: i128 = -a;
        let q0: i128 = n / b;
        let r0: i128 = n % b;
        proof {
            lemma_fundamental_div_mod(n as int, b as int);
            assert(b * q0 == q0 * b) by (nonlinear_arith);
        }
        if r0 == 0 {
            proof {
                assert((-q0) * b == -(q0 * b)) by (nonlinear_arith);
                lemma_fundamental_div_mod_converse(a as int, b as int, -q0, 0);
            }
            -q0
        } else {
            proof {
                assert((-q0 - 1) * b == -(q0 * b) - b) by (nonlinear_arith);
                lemma_fundamental_div_mod_converse(a as int, b as int, -q0 - 1, b - r0);
            }
            -q0 - 1
        }
    }
}

/// Rounded-down quotient by any non-zero divisor.
pub fn quot_floor(num: i128, den: i128) -> (q: i128)
    requires
        den != 0,
        num > i128::MIN,
        den > i128::MIN,
    ensures
        q == floor_quot(num as int, den as int),
{
    if den > 0 {
        div_floor(num, den)
    } else {
        div_floor(-num, -den)
    }
}

/// Integer square root, rounded down.
pub fn isqrt_u128(n: u128) -> (r: u128)
    ensures
        r == isqrt(n as int),
        is_isqrt(n as int, r as int),
        r < 0x1_0000_0000_0000_0000,
{
    let mut lo: u128 = 0;
    let mut hi: u128 = 0x1_0000_0000_0000_0000;
    assert(n < hi * hi) by (nonlinear_arith)
        requires
            hi == 0x1_0000_0000_0000_0000,
            n <= u128::MAX,
    ;
    while hi - lo > 1
        invariant
            lo < hi <= 0x1_0000_0000_0000_0000,
            lo * lo <= n,
            n < hi * hi,
        decreases hi - lo,
    {
        let mid: u128 = lo + (hi - lo) / 2;
        assert(mid * mid < 0x1_0000_0000_0000_0000 * 0x1_0000_0000_0000_0000) by (nonlinear_arith)
            requires
                0 <= mid < 0x1_0000_0000_0000_0000,
        ;
        if mid * mid <= n {
            lo = mid;
        } else {
            hi = mid;
        }
    }
    proof {
        lemma_isqrt_is(n as int, lo as int);
    }
    lo
}

/// Clamps a wide integer to the representable numerators.
pub fn clamp_to_raw(x: i128) -> (r: i32)
    ensures
        r == clamp_raw(x as int),
{
    if x < RAW_MIN as i128 {
        RAW_MIN
    } else if x > RAW_MAX as i128 {
        RAW_MAX
    } else {
        x as i32
    }
}

/// A fixed-point number with sixteen fractional bits.
#[derive(Clone, Copy, Debug, PartialEq, Eq, Structural, PartialOrd, Ord, Hash)]
pub struct Fixed {
    /// The numerator over `65536`.
    pub raw: i32,
}

impl View for Fixed {
    type V = int;

    open spec fn view(&self) -> int {
        self.raw as int
    }
}

impl Fixed {
    /// The scalar with numerator `clamp_raw(x)`.
    pub open spec fn of(x: int) -> Fixed {
        Fixed { raw: clamp_raw(x) as i32 }
    }

    /// The integer `n` as a scalar, saturating.
    pub open spec fn spec_from_int(n: int) -> Fixed {
        Fixed::of(n * SCALE)
    }

    pub open spec fn spec_is_finite(self) -> bool {
        RAW_MIN < self.raw < RAW_MAX
    }

    pub open spec fn spec_add(self, other: Fixed) -> Fixed {
        Fixed::of(add_raw(self@, other@))
    }

    pub open spec fn spec_sub(self, other: Fixed) -> Fixed {
        Fixed::of(sub_raw(self@, other@))
    }

    pub open spec fn spec_neg(self) -> Fixed {
        Fixed::of(neg_raw(self@))
    }

    pub open spec fn spec_mul(self, other: Fixed) -> Fixed {
        Fixed::of(mul_raw(self@, other@))
    }

    pub open spec fn spec_div(self, other: Fixed) -> Fixed {
        Fixed::of(div_raw(self@, other@))
    }

    pub open spec fn spec_sqrt(self) -> Fixed {
        Fixed::of(sqrt_raw(self@))
    }

    pub open spec fn spec_clamp_unit(self) -> Fixed {
        Fixed::of(unit_raw(self@))
    }

    pub open spec fn spec_powi(self, n: i32) -> Fixed {
        Fixed::of(powi_raw(self@, n as int))
    }

    pub open spec fn spec_pow(self, n: u32) -> Fixed {
        Fixed::of(pow_raw(self@, n as nat))
    }

    /// The exact decimal numeral of the value, such as `-0.75` or `3`.
    pub fn to_text(&self) -> (s: String)
        ensures
            s@ == fixed_text(self@),
    {
        let mut s = String::new();
        push_fixed(&mut s, *self);
        s
    }

    /// The scalar with the given numerator.
    pub fn from_raw(raw: i32) -> (r: Fixed)
        ensures
            r@ == raw,
    {
        Fixed { raw }
    }

    /// Zero.
    pub fn zero() -> (r: Fixed)
        ensures
            r@ == 0,
    {
        Fixed { raw: 0 }
    }

    /// One.
    pub fn one() -> (r: Fixed)
        ensures
            r@ == SCALE,
    {
        Fixed { raw: SCALE }
    }

    /// Positive infinity: the largest representable value.
    pub fn infinity() -> (r: Fixed)
        ensures
            r@ == RAW_MAX,
            !r.spec_is_finite(),
    {
        Fixed { raw: RAW_MAX }
    }

    /// The integer `n` as a scalar, saturating.
    pub fn from_int(n: i32) -> (r: Fixed)
        ensures
            r == Fixed::spec_from_int(n as int),
            r@ == clamp_raw(n * SCALE),
    {
        Fixed { raw: clamp_to_raw(n as i128 * 65536) }
    }

    /// The unsigned integer `n` as a scalar, saturating.
    pub fn from_u32(n: u32) -> (r: Fixed)
        ensures
            r == Fixed::spec_from_int(n as int),
            r@ == clamp_raw(n * SCALE),
    {
        Fixed { raw: clamp_to_raw(n as i128 * 65536) }
    }

    /// The fraction `num / den` as a scalar, rounded down and saturating.
    pub fn from_ratio(num: i32, den: i32) -> (r: Fixed)
        ensures
            r@ == div_raw(num as int, den as int),
    {
        Fixed { raw: num }.div(Fixed { raw: den })
    }

    /// The scalar with the numerator `num / den`, rounded down and
    /// saturating.
    pub fn quotient(num: i128, den: i128) -> (r: Fixed)
        requires
            num > i128::MIN,
            den > i128::MIN,
        ensures
            r@ == quot_raw(num as int, den as int),
    {
        if den == 0 {
            if num > 0 {
                Fixed { raw: RAW_MAX }
            } else if num < 0 {
                Fixed { raw: RAW_MIN }
            } else {
                Fixed { raw: 0 }
            }
        } else {
            Fixed { raw: clamp_to_raw(quot_floor(num, den)) }
        }
    }

    /// Whether the value is neither of the two infinities.
    #[verifier::when_used_as_spec(spec_is_finite)]
    pub fn is_finite(self) -> (b: bool)
        ensures
            b == self.spec_is_finite(),
    {
        RAW_MIN < self.raw && self.raw < RAW_MAX
    }

    /// Saturating sum.
    pub fn add(self, other: Fixed) -> (r: Fixed)
        ensures
            r == self.spec_add(other),
            r@ == add_raw(self@, other@),
    {
        Fixed { raw: clamp_to_raw(self.raw as i128 + other.raw as i128) }
    }

    /// Saturating difference.
    pub fn sub(self, other: Fixed) -> (r: Fixed)
        ensures
            r == self.spec_sub(other),
            r@ == sub_raw(self@, other@),
    {
        Fixed { raw: clamp_to_raw(self.raw as i128 - other.raw as i128) }
    }

    /// Saturating negation.
    pub fn neg(self) -> (r: Fixed)
        ensures
            r == self.spec_neg(),
            r@ == neg_raw(self@),
    {
        Fixed { raw: clamp_to_raw(-(self.raw as i128)) }
    }

    /// Saturating product, rounded down.
    pub fn mul(self, other: Fixed) -> (r: Fixed)
        ensures
            r == self.spec_mul(other),
            r@ == mul_raw(self@, other@),
    {
        proof {
            lemma_mul_bound(self@, other@, 0x8000_0000, 0x8000_0000);
        }
        let p: i128 = self.raw as i128 * other.raw as i128;
        Fixed { raw: clamp_to_raw(div_floor(p, SCALE as i128)) }
    }

    /// Saturating quotient, rounded down; division by zero gives the infinity
    /// of the dividend's sign, and zero for a zero dividend.
    pub fn div(self, other: Fixed) -> (r: Fixed)
        ensures
            r == self.spec_div(other),
            r@ == div_raw(self@, other@),
    {
        if other.raw == 0 {
            if self.raw > 0 {
                Fixed { raw: RAW_MAX }
            } else if self.raw < 0 {
                Fixed { raw: RAW_MIN }
            } else {
                Fixed { raw: 0 }
            }
        } else {
            let n: i128 = self.raw as i128 * 65536;
            Fixed { raw: clamp_to_raw(quot_floor(n, other.raw as i128)) }
        }
    }

    /// Square root, rounded down; zero for negative values.
    pub fn sqrt(self) -> (r: Fixed)
        ensures
            r == self.spec_sqrt(),
            r@ == sqrt_raw(self@),
    {
        if self.raw <= 0 {
            Fixed { raw: 0 }
        } else {
            let n: u128 = self.raw as u128 * 65536;
            let root: u128 = isqrt_u128(n);
            Fixed { raw: clamp_to_raw(root as i128) }
        }
    }

    /// The value clamped to the unit interval.
    pub fn clamp_unit(self) -> (r: Fixed)
        ensures
            r == self.spec_clamp_unit(),
            r@ == unit_raw(self@),
            0 <= r@ <= SCALE,
    {
        if self.raw < 0 {
            Fixed { raw: 0 }
        } else if self.raw > SCALE {
            Fixed { raw: SCALE }
        } else {
            self
        }
    }

    /// The value raised to the power `n` by repeated squaring.
    pub fn pow(self, n: u32) -> (r: Fixed)
        ensures
            r == self.spec_pow(n),
            r@ == pow_raw(self@, n as nat),
        decreases n,
    {
        if n == 0 {
            Fixed { raw: SCALE }
        } else {
            let sq = self.mul(self);
            let half = sq.pow(n / 2);
            if n % 2 == 0 {
                half
            } else {
                self.mul(half)
            }
        }
    }

    /// The value raised to the signed power `n`.
    pub fn powi(self, n: i32) -> (r: Fixed)
        ensures
            r == self.spec_powi(n),
            r@ == powi_raw(self@, n as int),
    {
        if n >= 0 {
            self.pow(n as u32)
        } else {
            let m: u32 = (-(n as i64)) as u32;
            Fixed { raw: SCALE }.div(self.pow(m))
        }
    }
}

/// The decimal digit `d` as a character.
pub open spec fn digit_char(d: int) -> char {
    if d == 0 {
        '0'
    } else if d == 1 {
        '1'
    } else if d == 2 {
        '2'
    } else if d == 3 {
        '3'
    } else if d == 4 {
        '4'
    } else if d == 5 {
        '5'
    } else if d == 6 {
        '6'
    } else if d == 7 {
        '7'
    } else if d == 8 {
        '8'
    } else {
        '9'
    }
}

/// The decimal digits of `n`, without leading zeros.
pub open spec fn decimal_digits(n: nat) -> Seq<char>
    decreases n,
{
    if n < 10 {
        seq![digit_char(n as int)]
    } else {
        decimal_digits(n / 10).push(digit_char((n % 10) as int))
    }
}

/// The decimal digits behind the point of the fraction `rest / 65536`, at
/// most `places` of them and none once nothing is left.
pub open spec fn fraction_digits(rest: nat, places: nat) -> Seq<char>
    decreases places,
{
    if rest == 0 || places == 0 {
        Seq::empty()
    } else {
        seq![digit_char((rest * 10 / 65536) as int)] + fraction_digits(
            (rest * 10) % 65536,
            (places - 1) as nat,
        )
    }
}

/// The decimal numeral of a magnitude with the numerator `n`: the whole
/// part, and behind a point the sixteen or fewer digits of the fraction if
/// there is one.
pub open spec fn magnitude_text(n: nat) -> Seq<char> {
    if n % 65536 == 0 {
        decimal_digits(n / 65536)
    } else {
        decimal_digits(n / 65536) + seq!['.'] + fraction_digits(n % 65536, 16)
    }
}

/// The exact decimal numeral of the scalar with the numerator `raw`.
pub open spec fn fixed_text(raw: int) -> Seq<char> {
    if raw < 0 {
        seq!['-'] + magnitude_text((-raw) as nat)
    } else {
        magnitude_text(raw as nat)
    }
}

fn digit_str(d: u64) -> (s: &'static str)
    requires
        d < 10,
    ensures
        s@ == seq![digit_char(d as int)],
{
    proof {
        reveal_strlit("0");
        reveal_strlit("1");
        reveal_strlit("2");
        reveal_strlit("3");
        reveal_strlit("4");
        reveal_strlit("5");
        reveal_strlit("6");
        reveal_strlit("7");
        reveal_strlit("8");
        reveal_strlit("9");
    }
    let s = match d {
        0 => "0",
        1 => "1",
        2 => "2",
        3 => "3",
        4 => "4",
        5 => "5",
        6 => "6",
        7 => "7",
        8 => "8",
        _ => "9",
    };
    assert(s@ =~= seq![digit_char(d as int)]);
    s
}

fn push_decimal(s: &mut String, n: u64)
    ensures
        final(s)@ == old(s)@ + decimal_digits(n as nat),
    decreases n,
{
    if n >= 10 {
        push_decimal(s, n / 10);
    }
    s.append(digit_str(n % 10));
    assert(s@ =~= old(s)@ + decimal_digits(n as nat));
}

fn push_fraction(s: &mut String, rest: u64, places: u32)
    requires
        rest < 65536,
    ensures
        final(s)@ == old(s)@ + fraction_digits(rest as nat, places as nat),
    decreases places,
{
    if rest != 0 && places != 0 {
        s.append(digit_str(rest * 10 / 65536));
        push_fraction(s, (rest * 10) % 65536, places - 1);
    }
    assert(s@ =~= old(s)@ + fraction_digits(rest as nat, places as nat));
}

/// Appends the exact decimal numeral of `value` to `s`.
pub fn push_fixed(s: &mut String, value: Fixed)
    ensures
        final(s)@ == old(s)@ + fixed_text(value@),
{
    proof {
        reveal_strlit("-");
        reveal_strlit(".");
    }
    let magnitude: u64 = if value.raw < 0 {
        s.append("-");
        (-(value.raw as i64)) as u64
    } else {
        value.raw as u64
    };
    push_decimal(s, magnitude / 65536);
    if magnitude % 65536 != 0 {
        s.append(".");
        push_fraction(s, magnitude % 65536, 16);
    }
    assert(s@ =~= old(s)@ + fixed_text(value@));
}

// The operators stand for the saturating methods of the same meaning.

impl core::ops::Add for Fixed {
    type Output = Fixed;

    fn add(self, rhs: Fixed) -> (r: Fixed) {
        Fixed::add(self, rhs)
    }
}

impl vstd::std_specs::ops::AddSpecImpl for Fixed {
    open spec fn obeys_add_spec() -> bool {
        true
    }

    open spec fn add_req(self, rhs: Fixed) -> bool {
        true
    }

    open spec fn add_spec(self, rhs: Fixed) -> Fixed {
        self.spec_add(rhs)
    }
}

impl core::ops::Sub for Fixed {
    type Output = Fixed;

    fn sub(self, rhs: Fixed) -> (r: Fixed) {
        Fixed::sub(self, rhs)
    }
}

impl vstd::std_specs::ops::SubSpecImpl for Fixed {
    open spec fn obeys_sub_spec() -> bool {
        true
    }

    open spec fn sub_req(self, rhs: Fixed) -> bool {
        true
    }

    open spec fn sub_spec(self, rhs: Fixed) -> Fixed {
        self.spec_sub(rhs)
    }
}

impl core::ops::Mul for Fixed {
    type Output = Fixed;

    fn mul(self, rhs: Fixed) -> (r: Fixed) {
        Fixed::mul(self, rhs)
    }
}

impl vstd::std_specs::ops::MulSpecImpl for Fixed {
    open spec fn obeys_mul_spec() -> bool {
        true
    }

    open spec fn mul_req(self, rhs: Fixed) -> bool {
        true
    }

    open spec fn mul_spec(self, rhs: Fixed) -> Fixed {
        self.spec_mul(rhs)
    }
}

impl core::ops::Div for Fixed {
    type Output = Fixed;

    fn div(self, rhs: Fixed) -> (r: Fixed) {
        Fixed::div(self, rhs)
    }
}

impl vstd::std_specs::ops::DivSpecImpl for Fixed {
    open spec fn obeys_div_spec() -> bool {
        true
    }

    open spec fn div_req(self, rhs: Fixed) -> bool {
        true
    }

    open spec fn div_spec(self, rhs: Fixed) -> Fixed {
        self.spec_div(rhs)
    }
}

impl core::ops::Neg for Fixed {
    type Output = Fixed;

    fn neg(self) -> (r: Fixed) {
        Fixed::neg(self)
    }
}

impl vstd::std_specs::ops::NegSpecImpl for Fixed {
    open spec fn obeys_neg_spec() -> bool {
        true
    }

    open spec fn neg_req(self) -> bool {
        true
    }

    open spec fn neg_spec(self) -> Fixed {
        self.spec_neg()
    }
}

/// A product of two numerators that are not negative is not negative.
pub proof fn lemma_product_not_negative(a: int, b: int)
    requires
        a >= 0,
        b >= 0,
    ensures
        mul_raw(a, b) >= 0,
{
    assert(a * b >= 0) by (nonlinear_arith)
        requires
            a >= 0,
            b >= 0,
    ;
}

/// A power of a numerator that is not negative is not negative.
pub proof fn lemma_power_not_negative(a: int, n: nat)
    requires
        a >= 0,
    ensures
        pow_raw(a, n) >= 0,
    decreases n,
{
    if n > 0 {
        lemma_product_not_negative(a, a);
        lemma_power_not_negative(mul_raw(a, a), n / 2);
        lemma_product_not_negative(a, pow_raw(mul_raw(a, a), n / 2));
    }
}

/// A power with a signed exponent of a numerator that is not negative is
/// not negative.
pub proof fn lemma_signed_power_not_negative(a: int, n: int)
    requires
        a >= 0,
    ensures
        powi_raw(a, n) >= 0,
{
    if n >= 0 {
        lemma_power_not_negative(a, n as nat);
    } else {
        lemma_power_not_negative(a, (-n) as nat);
        let p = pow_raw(a, (-n) as nat);
        if p > 0 {
            assert((SCALE as int * SCALE as int) / p >= 0) by (nonlinear_arith)
                requires
                    p > 0,
            ;
        }
    }
}

/// Zero is neutral for sum and difference.
pub proof fn lemma_zero_is_neutral(x: Fixed)
    ensures
        x.spec_add(Fixed::of(0)) == x,
        Fixed::of(0).spec_add(x) == x,
        x.spec_sub(Fixed::of(0)) == x,
{
}

/// A product with zero is zero.
pub proof fn lemma_zero_annihilates(x: Fixed)
    ensures
        x.spec_mul(Fixed::of(0)) == Fixed::of(0),
        Fixed::of(0).spec_mul(x) == Fixed::of(0),
{
    assert(x@ * 0 == 0) by (nonlinear_arith);
    assert(0 * x@ == 0) by (nonlinear_arith);
}

} // verus!
