//! Vectors and points over [`Fixed`] scalars: [`Vector`] for any number of
//! components, and [`Vector3D`] with its three components by name, which is
//! what the renderer computes with.
//!
//! Sums, differences and scalings act on each component with the saturating
//! scalar operations. Dot and cross products, norms and normalisation are
//! computed exactly on the numerators in wide integers and rounded once.

use crate::fixed::clamp_to_raw;
use crate::fixed::diff_wide;
use crate::fixed::div_floor;
use crate::fixed::fixed_text;
use crate::fixed::isqrt;
use crate::fixed::isqrt_u128;
use crate::fixed::lemma_isqrt_exists;
use crate::fixed::lemma_mul_bound;
use crate::fixed::mul_wide;
use crate::fixed::lemma_zero_annihilates;
use crate::fixed::lemma_zero_is_neutral;
use crate::fixed::push_fixed;
use crate::fixed::Fixed;
use crate::fixed::SCALE;
use crate::wide::half;
use crate::wide::wide_isqrt;
use crate::wide::wide_product;
use crate::wide::wide_sum;
use crate::wide::Wide;
use vstd::arithmetic::div_mod::lemma_fundamental_div_mod;
use vstd::arithmetic::div_mod::lemma_mod_bound;
use vstd::prelude::*;
use vstd::string::StringExecFns;

verus! {

pub type Point3D = Vector3D;

/// A vector, or a point, in space.
#[derive(Clone, Copy, Debug, PartialEq, Eq, Structural)]
pub struct Vector3D {
    pub x: Fixed,
    pub y: Fixed,
    pub z: Fixed,
}

/// Exact product of two numerators.
pub fn wide_mul(a: i32, b: i32) -> (p: i128)
    ensures
        p == a * b,
        -0x4000_0000_0000_0000 <= p <= 0x4000_0000_0000_0000,
{
    proof {
        lemma_mul_bound(a as int, b as int, 0x8000_0000, 0x8000_0000);
    }
    a as i128 * b as i128
}

/// Exact sum of the products of the components' numerators: the dot product
/// scaled by `65536 * 65536`.
pub open spec fn dot_int(a: Vector3D, b: Vector3D) -> int {
    a.x@ * b.x@ + a.y@ * b.y@ + a.z@ * b.z@
}

/// The squared length is never negative.
pub proof fn lemma_dot_self_nonnegative(a: Vector3D)
    ensures
        dot_int(a, a) >= 0,
{
    assert(a.x@ * a.x@ >= 0) by (nonlinear_arith);
    assert(a.y@ * a.y@ >= 0) by (nonlinear_arith);
    assert(a.z@ * a.z@ >= 0) by (nonlinear_arith);
}

/// Exact scaled dot product.
pub fn dot_wide(a: &Vector3D, b: &Vector3D) -> (d: i128)
    ensures
        d == dot_int(*a, *b),
        -0xC000_0000_0000_0000 <= d <= 0xC000_0000_0000_0000,
{
    wide_mul(a.x.raw, b.x.raw) + wide_mul(a.y.raw, b.y.raw) + wide_mul(a.z.raw, b.z.raw)
}

/// One component of a normalised vector: `c / n` for the length numerator `n`.
pub open spec fn unit_component(c: Fixed, n: int) -> Fixed {
    if n <= 0 {
        Fixed::of(0)
    } else {
        Fixed::of((c@ * SCALE) / n)
    }
}

fn unit_component_exec(c: Fixed, n: i128) -> (r: Fixed)
    requires
        0 <= n,
    ensures
        r == unit_component(c, n as int),
{
    if n == 0 {
        Fixed { raw: 0 }
    } else {
        Fixed { raw: clamp_to_raw(div_floor(c.raw as i128 * 65536, n)) }
    }
}

/// A vector with `DIM` components.
#[derive(Clone, Copy, Debug, PartialEq, Eq)]
pub struct Vector<const DIM: usize> {
    pub data: [Fixed; DIM],
}

/// The exact sum of the products of the numerators of the first `n`
/// components of two vectors.
pub open spec fn product_sum<const DIM: usize>(a: Vector<DIM>, b: Vector<DIM>, n: nat) -> int
    decreases n,
{
    if n == 0 {
        0
    } else {
        product_sum(a, b, (n - 1) as nat) + a.at(n - 1)@ * b.at(n - 1)@
    }
}

/// The sum of the squares of the first components is never negative.
pub proof fn lemma_square_sum_nonnegative<const DIM: usize>(a: Vector<DIM>, n: nat)
    ensures
        product_sum(a, a, n) >= 0,
    decreases n,
{
    if n > 0 {
        lemma_square_sum_nonnegative(a, (n - 1) as nat);
        assert(a.at(n - 1)@ * a.at(n - 1)@ >= 0) by (nonlinear_arith);
    }
}

/// The index that lies `k` behind `i` when the components are taken in a
/// circle.
pub open spec fn turned(i: int, k: int, dim: int) -> int {
    (i + k) % dim
}

impl<const DIM: usize> Vector<DIM> {
    /// The component with the index `i`.
    pub open spec fn at(&self, i: int) -> Fixed {
        self.data[i]
    }

    /// The numerator of the length before saturation.
    pub open spec fn length_int(self) -> int {
        isqrt(product_sum(self, self, DIM as nat))
    }

    /// Component `i` of the cross product with `other`: the components one
    /// and two places further on, taken in a circle, are multiplied
    /// crosswise. With three components this is the right-handed cross
    /// product.
    pub open spec fn cross_component(self, other: Vector<DIM>, i: int) -> Fixed {
        let j = turned(i, 1, DIM as int);
        let k = turned(i, 2, DIM as int);
        Fixed::of((self.at(j)@ * other.at(k)@ - self.at(k)@ * other.at(j)@) / (SCALE as int))
    }

    /// The vector with the given components.
    pub fn new(data: [Fixed; DIM]) -> (v: Vector<DIM>)
        ensures
            v.data == data,
    {
        Vector { data }
    }

    /// The vector whose components all are `value`.
    pub fn filled(value: Fixed) -> (v: Vector<DIM>)
        ensures
            forall|i: int| 0 <= i < DIM ==> #[trigger] v.at(i) == value,
    {
        Vector { data: [value; DIM] }
    }

    /// The vector of zeros.
    pub fn zero() -> (v: Vector<DIM>)
        ensures
            forall|i: int| 0 <= i < DIM ==> #[trigger] v.at(i) == Fixed::of(0),
    {
        Vector::filled(Fixed::zero())
    }

    /// The vector of ones.
    pub fn one() -> (v: Vector<DIM>)
        ensures
            forall|i: int| 0 <= i < DIM ==> #[trigger] v.at(i) == Fixed::of(SCALE as int),
    {
        Vector::filled(Fixed::one())
    }

    /// The exact sum of the products of the numerators of the components.
    pub fn dot_wide(&self, other: &Vector<DIM>) -> (d: i128)
        ensures
            d == product_sum(*self, *other, DIM as nat),
            -(DIM * 0x4000_0000_0000_0000) <= d <= DIM * 0x4000_0000_0000_0000,
    {
        let mut sum: i128 = 0;
        let mut k: usize = 0;
        while k < DIM
            invariant
                k <= DIM,
                sum == product_sum(*self, *other, k as nat),
                -(k * 0x4000_0000_0000_0000) <= sum <= k * 0x4000_0000_0000_0000,
            decreases DIM - k,
        {
            sum = sum + wide_mul(self.data[k].raw, other.data[k].raw);
            k += 1;
        }
        sum
    }

    /// The dot product, rounded down once.
    pub fn dot(&self, other: &Vector<DIM>) -> (r: Fixed)
        ensures
            r == Fixed::of(product_sum(*self, *other, DIM as nat) / (SCALE as int)),
    {
        Fixed { raw: clamp_to_raw(div_floor(self.dot_wide(other), 65536)) }
    }

    /// The squared length.
    pub fn norm_squared(&self) -> (r: Fixed)
        ensures
            r == Fixed::of(product_sum(*self, *self, DIM as nat) / (SCALE as int)),
    {
        self.dot(self)
    }

    /// The numerator of the length, before saturation.
    pub fn length_wide(&self) -> (n: i128)
        ensures
            n == self.length_int(),
            0 <= n < 0x1_0000_0000_0000_0000,
    {
        proof {
            lemma_square_sum_nonnegative(*self, DIM as nat);
        }
        let sum: i128 = self.dot_wide(self);
        isqrt_u128(sum as u128) as i128
    }

    /// The length: the square root of the exact sum of squares, rounded
    /// down.
    pub fn norm(&self) -> (r: Fixed)
        ensures
            r == Fixed::of(self.length_int()),
    {
        Fixed { raw: clamp_to_raw(self.length_wide()) }
    }

    /// The vector scaled to unit length; the zero vector stays zero.
    pub fn normalized(&self) -> (v: Vector<DIM>)
        ensures
            forall|i: int|
                0 <= i < DIM ==> #[trigger] v.at(i) == unit_component(self.at(i), self.length_int()),
    {
        let n = self.length_wide();
        let mut result: [Fixed; DIM] = self.data;
        let mut i: usize = 0;
        while i < DIM
            invariant
                i <= DIM,
                0 <= n,
                n == self.length_int(),
                forall|j: int|
                    0 <= j < i ==> #[trigger] result[j] == unit_component(self.at(j), n as int),
            decreases DIM - i,
        {
            result[i] = unit_component_exec(self.data[i], n);
            i += 1;
        }
        Vector { data: result }
    }

    /// The cross product: see [`Vector::cross_component`].
    pub fn cross(&self, other: &Vector<DIM>) -> (v: Vector<DIM>)
        ensures
            forall|i: int| 0 <= i < DIM ==> #[trigger] v.at(i) == self.cross_component(*other, i),
    {
        let mut result: [Fixed; DIM] = self.data;
        let mut i: usize = 0;
        while i < DIM
            invariant
                i <= DIM,
                forall|m: int|
                    0 <= m < i ==> #[trigger] result[m] == self.cross_component(*other, m),
            decreases DIM - i,
        {
            let j: usize = ((i as u128 + 1) % (DIM as u128)) as usize;
            let k: usize = ((i as u128 + 2) % (DIM as u128)) as usize;
            let product: i128 = wide_mul(self.data[j].raw, other.data[k].raw) - wide_mul(
                self.data[k].raw,
                other.data[j].raw,
            );
            result[i] = Fixed { raw: clamp_to_raw(div_floor(product, 65536)) };
            i += 1;
        }
        Vector { data: result }
    }

    /// Each component multiplied by `scale`.
    pub fn scale(&self, scale: Fixed) -> (v: Vector<DIM>)
        ensures
            forall|i: int| 0 <= i < DIM ==> #[trigger] v.at(i) == self.at(i).spec_mul(scale),
    {
        let mut result: [Fixed; DIM] = self.data;
        let mut i: usize = 0;
        while i < DIM
            invariant
                i <= DIM,
                forall|j: int| 0 <= j < i ==> #[trigger] result[j] == self.at(j).spec_mul(scale),
            decreases DIM - i,
        {
            result[i] = self.data[i].mul(scale);
            i += 1;
        }
        Vector { data: result }
    }

    /// Each component divided by `divisor`.
    pub fn div(&self, divisor: Fixed) -> (v: Vector<DIM>)
        ensures
            forall|i: int| 0 <= i < DIM ==> #[trigger] v.at(i) == self.at(i).spec_div(divisor),
    {
        let mut result: [Fixed; DIM] = self.data;
        let mut i: usize = 0;
        while i < DIM
            invariant
                i <= DIM,
                forall|j: int| 0 <= j < i ==> #[trigger] result[j] == self.at(j).spec_div(divisor),
            decreases DIM - i,
        {
            result[i] = self.data[i].div(divisor);
            i += 1;
        }
        Vector { data: result }
    }

    /// The componentwise sum.
    pub fn add(&self, other: &Vector<DIM>) -> (v: Vector<DIM>)
        ensures
            forall|i: int|
                0 <= i < DIM ==> #[trigger] v.at(i) == self.at(i).spec_add(other.at(i)),
    {
        let mut result: [Fixed; DIM] = self.data;
        let mut i: usize = 0;
        while i < DIM
            invariant
                i <= DIM,
                forall|j: int|
                    0 <= j < i ==> #[trigger] result[j] == self.at(j).spec_add(other.at(j)),
            decreases DIM - i,
        {
            result[i] = self.data[i].add(other.data[i]);
            i += 1;
        }
        Vector { data: result }
    }

    /// The componentwise difference.
    pub fn sub(&self, other: &Vector<DIM>) -> (v: Vector<DIM>)
        ensures
            forall|i: int|
                0 <= i < DIM ==> #[trigger] v.at(i) == self.at(i).spec_sub(other.at(i)),
    {
        let mut result: [Fixed; DIM] = self.data;
        let mut i: usize = 0;
        while i < DIM
            invariant
                i <= DIM,
                forall|j: int|
                    0 <= j < i ==> #[trigger] result[j] == self.at(j).spec_sub(other.at(j)),
            decreases DIM - i,
        {
            result[i] = self.data[i].sub(other.data[i]);
            i += 1;
        }
        Vector { data: result }
    }

    /// The opposite vector.
    pub fn neg(&self) -> (v: Vector<DIM>)
        ensures
            forall|i: int| 0 <= i < DIM ==> #[trigger] v.at(i) == self.at(i).spec_neg(),
    {
        let mut result: [Fixed; DIM] = self.data;
        let mut i: usize = 0;
        while i < DIM
            invariant
                i <= DIM,
                forall|j: int| 0 <= j < i ==> #[trigger] result[j] == self.at(j).spec_neg(),
            decreases DIM - i,
        {
            result[i] = self.data[i].neg();
            i += 1;
        }
        Vector { data: result }
    }
}

impl Vector<3> {
    /// The same vector with its components by name.
    pub fn named(&self) -> (v: Vector3D)
        ensures
            v == (Vector3D { x: self.at(0), y: self.at(1), z: self.at(2) }),
    {
        Vector3D { x: self.data[0], y: self.data[1], z: self.data[2] }
    }
}

/// The exact cross product of two vectors given by their numerators,
/// scaled by `65536 * 65536`.
pub open spec fn cross_exact(a: (int, int, int), b: (int, int, int)) -> (int, int, int) {
    (a.1 * b.2 - a.2 * b.1, a.2 * b.0 - a.0 * b.2, a.0 * b.1 - a.1 * b.0)
}

/// The unit vector along a vector that is given exactly, in any scale: each
/// component over the exact length, rounded down once. The zero vector
/// gives the zero vector.
pub open spec fn unit_of(v: (int, int, int)) -> Vector3D {
    let n = isqrt(v.0 * v.0 + v.1 * v.1 + v.2 * v.2);
    if n <= 0 {
        Vector3D { x: Fixed::of(0), y: Fixed::of(0), z: Fixed::of(0) }
    } else {
        Vector3D {
            x: Fixed::of((v.0 * SCALE) / n),
            y: Fixed::of((v.1 * SCALE) / n),
            z: Fixed::of((v.2 * SCALE) / n),
        }
    }
}

fn wide_square(x: i128) -> (p: Wide)
    requires
        -0x4_0000_0000_0000_0000 <= x <= 0x4_0000_0000_0000_0000,
    ensures
        p@ == x * x,
        p.high < 0x20,
{
    let size: u128 = if x < 0 {
        (-x) as u128
    } else {
        x as u128
    };
    let p = wide_product(size, size);
    proof {
        assert(size * size == x * x) by (nonlinear_arith)
            requires
                size == x || size == -x,
        ;
        assert(size * size <= 0x4_0000_0000_0000_0000 * 0x4_0000_0000_0000_0000)
            by (nonlinear_arith)
            requires
                0 <= size <= 0x4_0000_0000_0000_0000,
        ;
        assert(0x4_0000_0000_0000_0000 * 0x4_0000_0000_0000_0000 == 0x10 * half());
    }
    p
}

/// The unit vector along the vector with the given exact components.
pub fn unit_of_wide(x: i128, y: i128, z: i128) -> (v: Vector3D)
    requires
        -0x4_0000_0000_0000_0000 <= x <= 0x4_0000_0000_0000_0000,
        -0x4_0000_0000_0000_0000 <= y <= 0x4_0000_0000_0000_0000,
        -0x4_0000_0000_0000_0000 <= z <= 0x4_0000_0000_0000_0000,
    ensures
        v == unit_of((x as int, y as int, z as int)),
{
    let sum = wide_sum(wide_sum(wide_square(x), wide_square(y)), wide_square(z));
    assert(sum.high < 0x100);
    let n = wide_isqrt(sum) as i128;
    if n == 0 {
        Vector3D { x: Fixed::zero(), y: Fixed::zero(), z: Fixed::zero() }
    } else {
        Vector3D {
            x: Fixed { raw: clamp_to_raw(div_floor(x * 65536, n)) },
            y: Fixed { raw: clamp_to_raw(div_floor(y * 65536, n)) },
            z: Fixed { raw: clamp_to_raw(div_floor(z * 65536, n)) },
        }
    }
}

impl Vector3D {
    pub open spec fn spec_new(data: [Fixed; 3]) -> Vector3D {
        Vector3D { x: data[0], y: data[1], z: data[2] }
    }

    pub open spec fn spec_zero() -> Vector3D {
        Vector3D { x: Fixed::of(0), y: Fixed::of(0), z: Fixed::of(0) }
    }

    pub open spec fn spec_one() -> Vector3D {
        Vector3D { x: Fixed::of(SCALE as int), y: Fixed::of(SCALE as int), z: Fixed::of(SCALE as int) }
    }

    pub open spec fn spec_add(self, other: Vector3D) -> Vector3D {
        Vector3D {
            x: self.x.spec_add(other.x),
            y: self.y.spec_add(other.y),
            z: self.z.spec_add(other.z),
        }
    }

    pub open spec fn spec_add_scalar(self, s: Fixed) -> Vector3D {
        Vector3D { x: self.x.spec_add(s), y: self.y.spec_add(s), z: self.z.spec_add(s) }
    }

    pub open spec fn spec_sub(self, other: Vector3D) -> Vector3D {
        Vector3D {
            x: self.x.spec_sub(other.x),
            y: self.y.spec_sub(other.y),
            z: self.z.spec_sub(other.z),
        }
    }

    pub open spec fn spec_neg(self) -> Vector3D {
        Vector3D { x: self.x.spec_neg(), y: self.y.spec_neg(), z: self.z.spec_neg() }
    }

    pub open spec fn spec_scale(self, s: Fixed) -> Vector3D {
        Vector3D { x: self.x.spec_mul(s), y: self.y.spec_mul(s), z: self.z.spec_mul(s) }
    }

    pub open spec fn spec_div(self, s: Fixed) -> Vector3D {
        Vector3D { x: self.x.spec_div(s), y: self.y.spec_div(s), z: self.z.spec_div(s) }
    }

    /// The dot product, rounded down once.
    pub open spec fn spec_dot(self, other: Vector3D) -> Fixed {
        Fixed::of(dot_int(self, other) / (SCALE as int))
    }

    pub open spec fn spec_norm_squared(self) -> Fixed {
        self.spec_dot(self)
    }

    /// The numerator of the length before saturation: the integer square root
    /// of the exact sum of squares.
    pub open spec fn length_int(self) -> int {
        isqrt(dot_int(self, self))
    }

    pub open spec fn spec_norm(self) -> Fixed {
        Fixed::of(self.length_int())
    }

    /// Each component divided by the length; the zero vector stays zero.
    pub open spec fn spec_normalized(self) -> Vector3D {
        Vector3D {
            x: unit_component(self.x, self.length_int()),
            y: unit_component(self.y, self.length_int()),
            z: unit_component(self.z, self.length_int()),
        }
    }

    /// The right-handed cross product, each component rounded down once.
    pub open spec fn spec_cross(self, other: Vector3D) -> Vector3D {
        Vector3D {
            x: Fixed::of((self.y@ * other.z@ - self.z@ * other.y@) / (SCALE as int)),
            y: Fixed::of((self.z@ * other.x@ - self.x@ * other.z@) / (SCALE as int)),
            z: Fixed::of((self.x@ * other.y@ - self.y@ * other.x@) / (SCALE as int)),
        }
    }

    /// The numerators of the components.
    pub open spec fn raws(self) -> (int, int, int) {
        (self.x@, self.y@, self.z@)
    }

    /// The unit vector along the cross product with `other`: the exact
    /// cross product, normalised and rounded once.
    pub open spec fn spec_unit_cross(self, other: Vector3D) -> Vector3D {
        unit_of(cross_exact(self.raws(), other.raws()))
    }

    /// The exact vector from this point to `target`, by component.
    pub open spec fn offset_to(self, target: Vector3D) -> (int, int, int) {
        (target.x@ - self.x@, target.y@ - self.y@, target.z@ - self.z@)
    }

    /// The unit vector from this point towards `target`: the exact
    /// difference, normalised and rounded once.
    pub open spec fn spec_unit_to(self, target: Vector3D) -> Vector3D {
        unit_of(self.offset_to(target))
    }

    /// The distance from this point to `target`: the length of the exact
    /// difference, rounded down once and saturating.
    pub open spec fn spec_distance_to(self, target: Vector3D) -> Fixed {
        let d = self.offset_to(target);
        Fixed::of(isqrt(d.0 * d.0 + d.1 * d.1 + d.2 * d.2))
    }

    /// The vector as text: its three components as exact decimal numerals,
    /// in brackets behind `Vec3D`.
    pub open spec fn spec_to_text(self) -> Seq<char> {
        "Vec3D["@ + fixed_text(self.x@) + ", "@ + fixed_text(self.y@) + ", "@ + fixed_text(self.z@)
            + "]"@
    }

    /// Appends the vector as text to `s`.
    pub fn push_text(&self, s: &mut String)
        ensures
            final(s)@ == old(s)@ + self.spec_to_text(),
    {
        s.append("Vec3D[");
        push_fixed(s, self.x);
        s.append(", ");
        push_fixed(s, self.y);
        s.append(", ");
        push_fixed(s, self.z);
        s.append("]");
        assert(s@ =~= old(s)@ + self.spec_to_text());
    }

    /// The vector as text, such as `Vec3D[1, -0.5, 2.25]`.
    pub fn to_text(&self) -> (s: String)
        ensures
            s@ == self.spec_to_text(),
    {
        let mut s = String::new();
        self.push_text(&mut s);
        s
    }

    /// The first component.
    #[inline]
    pub fn x(&self) -> (r: Fixed)
        ensures
            r == self.x,
    {
        self.x
    }

    /// The second component.
    #[inline]
    pub fn y(&self) -> (r: Fixed)
        ensures
            r == self.y,
    {
        self.y
    }

    /// The third component.
    #[inline]
    pub fn z(&self) -> (r: Fixed)
        ensures
            r == self.z,
    {
        self.z
    }

    /// The vector with the given components.
    pub fn new(data: [Fixed; 3]) -> (v: Vector3D)
        ensures
            v == Vector3D::spec_new(data),
    {
        Vector3D { x: data[0], y: data[1], z: data[2] }
    }

    /// The same vector as a vector of three components.
    pub fn components(&self) -> (v: Vector<3>)
        ensures
            v.at(0) == self.x,
            v.at(1) == self.y,
            v.at(2) == self.z,
    {
        Vector { data: [self.x, self.y, self.z] }
    }

    /// The vector of zeros.
    pub fn zero() -> (v: Vector3D)
        ensures
            v == Vector3D::spec_zero(),
    {
        Vector3D { x: Fixed::zero(), y: Fixed::zero(), z: Fixed::zero() }
    }

    /// The vector of ones.
    pub fn one() -> (v: Vector3D)
        ensures
            v == Vector3D::spec_one(),
    {
        Vector3D { x: Fixed::one(), y: Fixed::one(), z: Fixed::one() }
    }

    /// The squared length.
    pub fn norm_squared(&self) -> (r: Fixed)
        ensures
            r == self.spec_norm_squared(),
            r@ >= 0,
    {
        proof {
            lemma_dot_self_nonnegative(*self);
        }
        self.dot(self)
    }

    /// The length: the square root of the exact sum of squares, rounded down.
    pub fn norm(&self) -> (r: Fixed)
        ensures
            r == self.spec_norm(),
            r@ >= 0,
    {
        let n = self.length_wide();
        Fixed { raw: clamp_to_raw(n) }
    }

    /// The numerator of the length, before saturation.
    pub fn length_wide(&self) -> (n: i128)
        ensures
            n == self.length_int(),
            0 <= n < 0x1_0000_0000_0000_0000,
    {
        proof {
            lemma_dot_self_nonnegative(*self);
        }
        let sum: i128 = dot_wide(self, self);
        isqrt_u128(sum as u128) as i128
    }

    /// The vector scaled to unit length; the zero vector stays zero.
    pub fn normalized(&self) -> (v: Vector3D)
        ensures
            v == self.spec_normalized(),
    {
        let n = self.length_wide();
        Vector3D {
            x: unit_component_exec(self.x, n),
            y: unit_component_exec(self.y, n),
            z: unit_component_exec(self.z, n),
        }
    }

    /// The dot product.
    pub fn dot(&self, other: &Vector3D) -> (r: Fixed)
        ensures
            r == self.spec_dot(*other),
    {
        Fixed { raw: clamp_to_raw(div_floor(dot_wide(self, other), 65536)) }
    }

    /// The cross product.
    pub fn cross(&self, other: &Vector3D) -> (v: Vector3D)
        ensures
            v == self.spec_cross(*other),
    {
        let cx: i128 = wide_mul(self.y.raw, other.z.raw) - wide_mul(self.z.raw, other.y.raw);
        let cy: i128 = wide_mul(self.z.raw, other.x.raw) - wide_mul(self.x.raw, other.z.raw);
        let cz: i128 = wide_mul(self.x.raw, other.y.raw) - wide_mul(self.y.raw, other.x.raw);
        Vector3D {
            x: Fixed { raw: clamp_to_raw(div_floor(cx, 65536)) },
            y: Fixed { raw: clamp_to_raw(div_floor(cy, 65536)) },
            z: Fixed { raw: clamp_to_raw(div_floor(cz, 65536)) },
        }
    }

    /// The unit vector from this point towards `target`.
    pub fn unit_to(&self, target: &Vector3D) -> (v: Vector3D)
        ensures
            v == self.spec_unit_to(*target),
    {
        unit_of_wide(
            diff_wide(target.x, self.x),
            diff_wide(target.y, self.y),
            diff_wide(target.z, self.z),
        )
    }

    /// The distance from this point to `target`.
    pub fn distance_to(&self, target: &Vector3D) -> (r: Fixed)
        ensures
            r == self.spec_distance_to(*target),
    {
        let ghost small = 0x1_0000_0000int;
        let dx = diff_wide(target.x, self.x);
        let dy = diff_wide(target.y, self.y);
        let dz = diff_wide(target.z, self.z);
        let sum = mul_wide(dx, dx, Ghost(small), Ghost(small)) + mul_wide(
            dy,
            dy,
            Ghost(small),
            Ghost(small),
        ) + mul_wide(dz, dz, Ghost(small), Ghost(small));
        proof {
            assert(dx * dx >= 0 && dy * dy >= 0 && dz * dz >= 0) by (nonlinear_arith);
        }
        Fixed { raw: clamp_to_raw(isqrt_u128(sum as u128) as i128) }
    }

    /// The unit vector along the cross product with `other`.
    pub fn unit_cross(&self, other: &Vector3D) -> (v: Vector3D)
        ensures
            v == self.spec_unit_cross(*other),
    {
        let cx: i128 = wide_mul(self.y.raw, other.z.raw) - wide_mul(self.z.raw, other.y.raw);
        let cy: i128 = wide_mul(self.z.raw, other.x.raw) - wide_mul(self.x.raw, other.z.raw);
        let cz: i128 = wide_mul(self.x.raw, other.y.raw) - wide_mul(self.y.raw, other.x.raw);
        unit_of_wide(cx, cy, cz)
    }

    /// Each component multiplied by `scale`.
    pub fn scale(&self, scale: Fixed) -> (v: Vector3D)
        ensures
            v == self.spec_scale(scale),
    {
        Vector3D { x: self.x.mul(scale), y: self.y.mul(scale), z: self.z.mul(scale) }
    }

    /// The componentwise sum.
    pub fn add(self, other: Vector3D) -> (v: Vector3D)
        ensures
            v == self.spec_add(other),
    {
        Vector3D { x: self.x.add(other.x), y: self.y.add(other.y), z: self.z.add(other.z) }
    }

    /// The vector with `scalar` added to each component.
    pub fn add_scalar(self, scalar: Fixed) -> (v: Vector3D)
        ensures
            v == self.spec_add_scalar(scalar),
    {
        Vector3D { x: self.x.add(scalar), y: self.y.add(scalar), z: self.z.add(scalar) }
    }

    /// The componentwise difference.
    pub fn sub(self, other: Vector3D) -> (v: Vector3D)
        ensures
            v == self.spec_sub(other),
    {
        Vector3D { x: self.x.sub(other.x), y: self.y.sub(other.y), z: self.z.sub(other.z) }
    }

    /// The opposite vector.
    pub fn neg(self) -> (v: Vector3D)
        ensures
            v == self.spec_neg(),
    {
        Vector3D { x: self.x.neg(), y: self.y.neg(), z: self.z.neg() }
    }

    /// Each component divided by `divisor`.
    pub fn div(self, divisor: Fixed) -> (v: Vector3D)
        ensures
            v == self.spec_div(divisor),
    {
        Vector3D { x: self.x.div(divisor), y: self.y.div(divisor), z: self.z.div(divisor) }
    }
}

// The operators stand for the methods of the same meaning: `+` and `-`
// between vectors, `+` with a scalar on each component, `*` between vectors
// for the dot product, `*` and `/` with a scalar on each component.

impl core::ops::Add for Vector3D {
    type Output = Vector3D;

    fn add(self, rhs: Vector3D) -> (r: Vector3D) {
        Vector3D::add(self, rhs)
    }
}

impl vstd::std_specs::ops::AddSpecImpl for Vector3D {
    open spec fn obeys_add_spec() -> bool {
        true
    }

    open spec fn add_req(self, rhs: Vector3D) -> bool {
        true
    }

    open spec fn add_spec(self, rhs: Vector3D) -> Vector3D {
        self.spec_add(rhs)
    }
}

impl core::ops::Add<Fixed> for Vector3D {
    type Output = Vector3D;

    fn add(self, rhs: Fixed) -> (r: Vector3D) {
        self.add_scalar(rhs)
    }
}

impl vstd::std_specs::ops::AddSpecImpl<Fixed> for Vector3D {
    open spec fn obeys_add_spec() -> bool {
        true
    }

    open spec fn add_req(self, rhs: Fixed) -> bool {
        true
    }

    open spec fn add_spec(self, rhs: Fixed) -> Vector3D {
        self.spec_add_scalar(rhs)
    }
}

impl core::ops::Sub for Vector3D {
    type Output = Vector3D;

    fn sub(self, rhs: Vector3D) -> (r: Vector3D) {
        Vector3D::sub(self, rhs)
    }
}

impl vstd::std_specs::ops::SubSpecImpl for Vector3D {
    open spec fn obeys_sub_spec() -> bool {
        true
    }

    open spec fn sub_req(self, rhs: Vector3D) -> bool {
        true
    }

    open spec fn sub_spec(self, rhs: Vector3D) -> Vector3D {
        self.spec_sub(rhs)
    }
}

impl core::ops::Neg for Vector3D {
    type Output = Vector3D;

    fn neg(self) -> (r: Vector3D) {
        Vector3D::neg(self)
    }
}

impl vstd::std_specs::ops::NegSpecImpl for Vector3D {
    open spec fn obeys_neg_spec() -> bool {
        true
    }

    open spec fn neg_req(self) -> bool {
        true
    }

    open spec fn neg_spec(self) -> Vector3D {
        self.spec_neg()
    }
}

impl core::ops::Mul for Vector3D {
    type Output = Fixed;

    fn mul(self, rhs: Vector3D) -> (r: Fixed) {
        self.dot(&rhs)
    }
}

impl vstd::std_specs::ops::MulSpecImpl for Vector3D {
    open spec fn obeys_mul_spec() -> bool {
        true
    }

    open spec fn mul_req(self, rhs: Vector3D) -> bool {
        true
    }

    open spec fn mul_spec(self, rhs: Vector3D) -> Fixed {
        self.spec_dot(rhs)
    }
}

impl core::ops::Mul<Fixed> for Vector3D {
    type Output = Vector3D;

    fn mul(self, rhs: Fixed) -> (r: Vector3D) {
        self.scale(rhs)
    }
}

impl vstd::std_specs::ops::MulSpecImpl<Fixed> for Vector3D {
    open spec fn obeys_mul_spec() -> bool {
        true
    }

    open spec fn mul_req(self, rhs: Fixed) -> bool {
        true
    }

    open spec fn mul_spec(self, rhs: Fixed) -> Vector3D {
        self.spec_scale(rhs)
    }
}

impl core::ops::Div<Fixed> for Vector3D {
    type Output = Vector3D;

    fn div(self, rhs: Fixed) -> (r: Vector3D) {
        Vector3D::div(self, rhs)
    }
}

impl vstd::std_specs::ops::DivSpecImpl<Fixed> for Vector3D {
    open spec fn obeys_div_spec() -> bool {
        true
    }

    open spec fn div_req(self, rhs: Fixed) -> bool {
        true
    }

    open spec fn div_spec(self, rhs: Fixed) -> Vector3D {
        self.spec_div(rhs)
    }
}

/// A vector scaled by zero is the zero vector, and the zero vector is
/// neutral for sum and difference.
pub proof fn lemma_zero_vector(v: Vector3D)
    ensures
        v.spec_scale(Fixed::of(0)) == Vector3D::spec_zero(),
        v.spec_add(Vector3D::spec_zero()) == v,
        v.spec_sub(Vector3D::spec_zero()) == v,
{
    lemma_zero_annihilates(v.x);
    lemma_zero_annihilates(v.y);
    lemma_zero_annihilates(v.z);
    lemma_zero_is_neutral(v.x);
    lemma_zero_is_neutral(v.y);
    lemma_zero_is_neutral(v.z);
}

/// One component `c` of a vector with the squared length `q` and the
/// length `n`, divided by the length and rounded down to `f`: it does not
/// exceed one, and its square differs from the exact square by little.
proof fn lemma_unit_component(c: int, n: int, q: int, f: int)
    requires
        n >= 1,
        0 <= c * c <= q,
        n * n <= q < (n + 1) * (n + 1),
        f == (c * 65536) / n,
    ensures
        -65536 <= f <= 65536,
        (c * c) * (65536 * 65536) - (2 * 65536) * (n * n) <= (n * n) * (f * f),
        (n * n) * (f * f) < (c * c) * (65536 * 65536) + (2 * 65536 + 1) * (n * n),
{
    assert(-n <= c <= n) by (nonlinear_arith)
        requires
            n >= 1,
            c * c < (n + 1) * (n + 1),
    ;
    let w = c * 65536;
    lemma_fundamental_div_mod(w, n);
    lemma_mod_bound(w, n);
    let e = w % n;
    assert(n * f == w - e);
    assert(-65536 <= f <= 65536) by (nonlinear_arith)
        requires
            n * f == w - e,
            0 <= e < n,
            w == c * 65536,
            -n <= c <= n,
            n >= 1,
    ;
    assert((n * n) * (f * f) == (w - e) * (w - e)) by (nonlinear_arith)
        requires
            n * f == w - e,
    ;
    assert((w - e) * (w - e) == w * w - 2 * (w * e) + e * e) by (nonlinear_arith);
    assert(w * w == (c * c) * (65536 * 65536)) by (nonlinear_arith)
        requires
            w == c * 65536,
    ;
    assert(-(65536 * (n * n)) <= w * e <= 65536 * (n * n)) by (nonlinear_arith)
        requires
            w == c * 65536,
            -n <= c <= n,
            0 <= e < n,
    ;
    assert(0 <= e * e < n * n) by (nonlinear_arith)
        requires
            0 <= e < n,
    ;
    let nn = n * n;
    let we = w * e;
    let cc = c * c;
    assert((2 * 65536) * nn == 2 * (65536 * nn)) by (nonlinear_arith);
    assert((2 * 65536 + 1) * nn == 2 * (65536 * nn) + nn) by (nonlinear_arith);
    assert(nn * (f * f) == cc * (65536 * 65536) - 2 * we + e * e);
}

/// A normalised vector has unit length up to rounding. No component
/// exceeds one. The exact sum of the squares of the numerators falls short
/// of `65536 * 65536` by no more than `6 * 65536`, and, if the vector was at
/// least one long before, exceeds it by less than `9 * 65536 + 3`. The zero
/// vector stays the zero vector.
pub proof fn lemma_normalized_is_unit(v: Vector3D)
    ensures
        v.length_int() >= 0,
        v.length_int() == 0 ==> v.spec_normalized() == Vector3D::spec_zero(),
        -SCALE <= v.spec_normalized().x@ <= SCALE,
        -SCALE <= v.spec_normalized().y@ <= SCALE,
        -SCALE <= v.spec_normalized().z@ <= SCALE,
        v.length_int() > 0 ==> SCALE * SCALE - 6 * SCALE <= dot_int(
            v.spec_normalized(),
            v.spec_normalized(),
        ),
        v.length_int() >= SCALE ==> dot_int(v.spec_normalized(), v.spec_normalized()) < SCALE
            * SCALE + 9 * SCALE + 3,
{
    let q = dot_int(v, v);
    lemma_dot_self_nonnegative(v);
    lemma_isqrt_exists(q);
    let n = v.length_int();
    if n > 0 {
        let u = v.spec_normalized();
        assert(v.x@ * v.x@ >= 0 && v.y@ * v.y@ >= 0 && v.z@ * v.z@ >= 0) by (nonlinear_arith);
        let fx = (v.x@ * 65536) / n;
        let fy = (v.y@ * 65536) / n;
        let fz = (v.z@ * 65536) / n;
        lemma_unit_component(v.x@, n, q, fx);
        lemma_unit_component(v.y@, n, q, fy);
        lemma_unit_component(v.z@, n, q, fz);
        assert(u.x@ == fx && u.y@ == fy && u.z@ == fz);
        let nn = n * n;
        let ss = 65536 * 65536int;
        let d = dot_int(u, u);
        assert(nn * d == nn * (fx * fx) + nn * (fy * fy) + nn * (fz * fz)) by (nonlinear_arith)
            requires
                d == fx * fx + fy * fy + fz * fz,
        ;
        assert(q * ss == (v.x@ * v.x@) * ss + (v.y@ * v.y@) * ss + (v.z@ * v.z@) * ss)
            by (nonlinear_arith)
            requires
                q == v.x@ * v.x@ + v.y@ * v.y@ + v.z@ * v.z@,
        ;
        assert(nn * ss <= q * ss < nn * ss + (2 * n + 1) * ss) by (nonlinear_arith)
            requires
                nn == n * n,
                nn <= q < (n + 1) * (n + 1),
                ss == 65536 * 65536,
        ;
        assert(nn > 0) by (nonlinear_arith)
            requires
                nn == n * n,
                n > 0,
        ;
        assert(nn * (ss - 6 * 65536) == nn * ss - (6 * 65536) * nn) by (nonlinear_arith);
        assert((6 * 65536) * nn == 3 * ((2 * 65536) * nn)) by (nonlinear_arith);
        assert((6 * 65536 + 3) * nn == 3 * ((2 * 65536 + 1) * nn)) by (nonlinear_arith);
        assert(nn * (ss - 6 * 65536) <= nn * d);
        assert(ss - 6 * 65536 <= d) by (nonlinear_arith)
            requires
                nn * (ss - 6 * 65536) <= nn * d,
                nn > 0,
        ;
        if n >= 65536 {
            assert((2 * n + 1) * ss <= (3 * 65536) * nn) by (nonlinear_arith)
                requires
                    n >= 65536,
                    nn == n * n,
                    ss == 65536 * 65536,
            ;
            assert(nn * (ss + 9 * 65536 + 3) == nn * ss + (3 * 65536) * nn + (6 * 65536 + 3) * nn)
                by (nonlinear_arith);
            assert(nn * d < nn * (ss + 9 * 65536 + 3));
            assert(d < ss + 9 * 65536 + 3) by (nonlinear_arith)
                requires
                    nn * d < nn * (ss + 9 * 65536 + 3),
                    nn > 0,
            ;
        }
    }
}

} // verus!
