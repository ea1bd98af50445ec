//! Rays, lights and the geometric primitives with their intersection tests.
//!
//! An intersection test works on the exact numerators of the coordinates in
//! wide integers. A primitive is known to the renderer by its index in the
//! scene, which a hit carries along.

use crate::fixed::clamp_to_raw;
use crate::fixed::diff_wide;
use crate::fixed::div_floor;
use crate::fixed::isqrt;
use crate::fixed::mul_wide;
use crate::fixed::Fixed;
use crate::fixed::RAW_MAX;
use crate::fixed::SCALE;
use crate::image::Color;
use crate::matrix::vector::cross_exact;
use crate::matrix::vector::dot_int;
use crate::matrix::vector::unit_of;
use crate::matrix::vector::unit_of_wide;
use crate::matrix::vector::dot_wide;
use crate::matrix::vector::Point3D;
use crate::matrix::vector::Vector3D;
use crate::raytracer::geometry::material::Material;
use crate::wide::half;
use crate::wide::wide_difference;
use crate::wide::wide_isqrt;
use crate::wide::wide_le;
use crate::wide::wide_product;
use crate::wide::wide_sum;
use vstd::prelude::*;
use vstd::string::StringExecFns;

pub mod material;

verus! {

/// A point light.
#[derive(Clone, Copy, Debug, PartialEq, Eq, Structural)]
pub struct Light {
    pub source: Point3D,
    pub color: Color,
    pub intensity: Fixed,
}

/// The lights of a scene with the sum of their intensities.
pub struct Lights {
    pub sources: Vec<Light>,
    pub total_intensity: Fixed,
}

/// The saturating sum of the intensities of the first `n` lights.
pub open spec fn intensity_sum(sources: Seq<Light>, n: nat) -> Fixed
    decreases n,
{
    if n == 0 {
        Fixed::of(0)
    } else {
        intensity_sum(sources, (n - 1) as nat).spec_add(sources[n - 1].intensity)
    }
}

impl Lights {
    /// The recorded total is the sum of the intensities.
    pub open spec fn wf(&self) -> bool {
        self.total_intensity == intensity_sum(self.sources@, self.sources@.len())
    }

    /// The light set of the given sources.
    pub fn new(sources: Vec<Light>) -> (lights: Lights)
        ensures
            lights.sources@ == sources@,
            lights.total_intensity == intensity_sum(sources@, sources@.len()),
            lights.wf(),
    {
        let mut intensity = Fixed::zero();
        let mut i: usize = 0;
        while i < sources.len()
            invariant
                i <= sources@.len(),
                intensity == intensity_sum(sources@, i as nat),
            decreases sources@.len() - i,
        {
            intensity = intensity.add(sources[i].intensity);
            i += 1;
        }
        Lights { sources, total_intensity: intensity }
    }
}

/// Where a ray meets a surface.
#[derive(Clone, Copy, Debug, PartialEq, Eq, Structural)]
pub struct Rayhit {
    /// The ray parameter of the meeting point; infinite for the background.
    pub dist: Fixed,
    pub pos: Point3D,
    pub normal: Vector3D,
    pub material: Material,
    /// The index of the primitive in the scene.
    pub obj: usize,
}

impl Rayhit {
    pub fn new(dist: Fixed, pos: Point3D, normal: Vector3D, material: Material, obj: usize) -> (hit:
        Rayhit)
        ensures
            hit == (Rayhit { dist, pos, normal, material, obj }),
    {
        Rayhit { dist, pos, normal, material, obj }
    }
}

/// A half-line: the points `origin + direction * t` for `t >= 0`.
#[derive(Clone, Copy, Debug, PartialEq, Eq, Structural)]
pub struct Ray {
    pub direction: Vector3D,
    pub origin: Point3D,
}

impl Ray {
    pub open spec fn spec_at(&self, t: Fixed) -> Point3D {
        self.origin.spec_add(self.direction.spec_scale(t))
    }

    /// The ray as text: origin and direction behind `Ray`.
    pub open spec fn spec_to_text(&self) -> Seq<char> {
        "Ray("@ + self.origin.spec_to_text() + " -> "@ + self.direction.spec_to_text() + ")"@
    }

    /// The ray as text, such as `Ray(Vec3D[0, 0, 0] -> Vec3D[0, 0, 1])`.
    pub fn to_text(&self) -> (s: String)
        ensures
            s@ == self.spec_to_text(),
    {
        let mut s = String::new();
        s.append("Ray(");
        self.origin.push_text(&mut s);
        s.append(" -> ");
        self.direction.push_text(&mut s);
        s.append(")");
        assert(s@ =~= self.spec_to_text());
        s
    }

    /// The ray with its direction normalised.
    pub open spec fn spec_unit(&self) -> Ray {
        Ray { direction: self.direction.spec_normalized(), origin: self.origin }
    }

    /// The ray with its direction normalised.
    pub fn unit(&self) -> (ray: Ray)
        ensures
            ray == self.spec_unit(),
    {
        Ray { direction: self.direction.normalized(), origin: self.origin }
    }

    /// The point of the ray at parameter `t`.
    pub fn at(&self, t: Fixed) -> (p: Point3D)
        ensures
            p == self.spec_at(t),
    {
        self.origin.add(self.direction.scale(t))
    }
}

/// A sphere. A radius that is not finite makes it the background: every ray
/// meets it at infinite distance.
#[derive(Clone, Copy, Debug, PartialEq, Eq, Structural)]
pub struct Sphere {
    pub origin: Point3D,
    pub radius: Fixed,
    pub material: Material,
}

impl Sphere {
    /// The exact vector from the centre to the origin of the ray, by
    /// component.
    pub open spec fn offset(&self, ray: Ray) -> (int, int, int) {
        (
            ray.origin.x@ - self.origin.x@,
            ray.origin.y@ - self.origin.y@,
            ray.origin.z@ - self.origin.z@,
        )
    }

    /// The exact dot product of the direction with the offset, scaled by
    /// `65536 * 65536`.
    pub open spec fn half_b(&self, ray: Ray) -> int {
        let (ox, oy, oz) = self.offset(ray);
        ray.direction.x@ * ox + ray.direction.y@ * oy + ray.direction.z@ * oz
    }

    /// The exact squared length of the direction, scaled by `65536 * 65536`.
    pub open spec fn dir_sq(ray: Ray) -> int {
        dot_int(ray.direction, ray.direction)
    }

    /// The exact squared length of the offset less the squared radius,
    /// scaled by `65536 * 65536`.
    pub open spec fn free_term(&self, ray: Ray) -> int {
        let (ox, oy, oz) = self.offset(ray);
        ox * ox + oy * oy + oz * oz - self.radius@ * self.radius@
    }

    /// The exact discriminant of the quadratic in the ray parameter, a
    /// quarter of it, scaled by the fourth power of `65536`.
    pub open spec fn discriminant(&self, ray: Ray) -> int {
        self.half_b(ray) * self.half_b(ray) - Sphere::dir_sq(ray) * self.free_term(ray)
    }

    /// The square root of the discriminant, rounded down.
    pub open spec fn root_floor(&self, ray: Ray) -> int {
        isqrt(self.discriminant(ray))
    }

    /// The square root of the discriminant, rounded up.
    pub open spec fn root_ceil(&self, ray: Ray) -> int {
        if self.root_floor(ray) * self.root_floor(ray) == self.discriminant(ray) {
            self.root_floor(ray)
        } else {
            self.root_floor(ray) + 1
        }
    }

    /// Numerator of the smaller root, rounded down. It is not negative
    /// exactly if the exact root is not negative.
    pub open spec fn near_root(&self, ray: Ray) -> int {
        ((-self.half_b(ray) - self.root_ceil(ray)) * SCALE) / Sphere::dir_sq(ray)
    }

    /// Numerator of the larger root, rounded down. It is not negative
    /// exactly if the exact root is not negative.
    pub open spec fn far_root(&self, ray: Ray) -> int {
        ((-self.half_b(ray) + self.root_floor(ray)) * SCALE) / Sphere::dir_sq(ray)
    }

    /// Numerator of the smallest root that is not negative, if the exact
    /// discriminant is positive and one of the two roots is not negative.
    /// Nothing is rounded before the roots are, so a short direction is as
    /// good as a long one.
    pub open spec fn hit_distance(&self, ray: Ray) -> Option<int> {
        if Sphere::dir_sq(ray) <= 0 || self.discriminant(ray) <= 0 {
            None
        } else if self.near_root(ray) >= 0 {
            Some(self.near_root(ray))
        } else if self.far_root(ray) >= 0 {
            Some(self.far_root(ray))
        } else {
            None
        }
    }

    /// The unit vector from the centre towards `position`.
    pub open spec fn spec_normal(&self, position: Point3D) -> Vector3D {
        self.origin.spec_unit_to(position)
    }

    /// The hit of the background: at infinite distance, facing the ray.
    pub open spec fn background_hit(&self, id: usize, ray: Ray) -> Rayhit {
        Rayhit {
            dist: Fixed::of(RAW_MAX as int),
            pos: ray.direction.spec_scale(Fixed::of(RAW_MAX as int)),
            normal: ray.direction.spec_neg(),
            material: self.material,
            obj: id,
        }
    }

    /// The hit at the ray parameter with numerator `t`.
    pub open spec fn hit_at(&self, id: usize, ray: Ray, t: int) -> Rayhit {
        let pos = ray.spec_at(Fixed::of(t));
        Rayhit {
            dist: Fixed::of(t),
            pos,
            normal: self.spec_normal(pos),
            material: self.material,
            obj: id,
        }
    }

    /// The background is hit exactly when no finite hit is known yet. A
    /// finite sphere is hit at the smallest root that is not negative,
    /// provided that root is strictly below `closest`.
    pub open spec fn spec_intersect(&self, id: usize, ray: Ray, closest: Fixed) -> Option<Rayhit> {
        if !self.radius.spec_is_finite() {
            if closest.spec_is_finite() {
                None
            } else {
                Some(self.background_hit(id, ray))
            }
        } else {
            match self.hit_distance(ray) {
                Some(t) => if t < closest@ {
                    Some(self.hit_at(id, ray, t))
                } else {
                    None
                },
                None => None,
            }
        }
    }

    /// The unit vector from the centre towards `position`.
    pub fn normal(&self, position: Point3D) -> (n: Vector3D)
        ensures
            n == self.spec_normal(position),
    {
        self.origin.unit_to(&position)
    }

    /// Numerator of the distance at which the ray meets the finite sphere.
    pub fn solve(&self, ray: &Ray) -> (t: Option<i128>)
        ensures
            t is Some <==> self.hit_distance(*ray) is Some,
            t matches Some(d) ==> self.hit_distance(*ray) == Some(d as int) && d >= 0,
    {
        let ox = diff_wide(ray.origin.x, self.origin.x);
        let oy = diff_wide(ray.origin.y, self.origin.y);
        let oz = diff_wide(ray.origin.z, self.origin.z);
        let dx = ray.direction.x.raw as i128;
        let dy = ray.direction.y.raw as i128;
        let dz = ray.direction.z.raw as i128;
        let ghost small = 0x1_0000_0000int;
        let hb = mul_wide(dx, ox, Ghost(small), Ghost(small)) + mul_wide(
            dy,
            oy,
            Ghost(small),
            Ghost(small),
        ) + mul_wide(dz, oz, Ghost(small), Ghost(small));
        let dd = dot_wide(&ray.direction, &ray.direction);
        let r = self.radius.raw as i128;
        let cc = mul_wide(ox, ox, Ghost(small), Ghost(small)) + mul_wide(
            oy,
            oy,
            Ghost(small),
            Ghost(small),
        ) + mul_wide(oz, oz, Ghost(small), Ghost(small)) - mul_wide(
            r,
            r,
            Ghost(small),
            Ghost(small),
        );
        if dd <= 0 {
            return None;
        }
        let hb_size: u128 = if hb < 0 {
            (-hb) as u128
        } else {
            hb as u128
        };
        let cc_size: u128 = if cc < 0 {
            (-cc) as u128
        } else {
            cc as u128
        };
        let square = wide_product(hb_size, hb_size);
        let rest = wide_product(dd as u128, cc_size);
        proof {
            assert(hb_size * hb_size == hb * hb) by (nonlinear_arith)
                requires
                    hb_size == hb || hb_size == -hb,
            ;
            assert(cc < 0 ==> dd * cc_size == -(dd * cc)) by (nonlinear_arith)
                requires
                    cc < 0 ==> cc_size == -cc,
            ;
            assert(cc == 0 ==> dd * cc == 0) by (nonlinear_arith);
            assert(cc >= 0 ==> dd * cc_size == dd * cc) by (nonlinear_arith)
                requires
                    cc >= 0 ==> cc_size == cc,
            ;
            assert(hb_size * hb_size <= 0x10_0000_0000_0000_0000 * 0x10_0000_0000_0000_0000)
                by (nonlinear_arith)
                requires
                    0 <= hb_size <= 0x10_0000_0000_0000_0000,
            ;
            assert(dd * cc_size <= 0x10_0000_0000_0000_0000 * 0x10_0000_0000_0000_0000)
                by (nonlinear_arith)
                requires
                    0 <= dd <= 0x10_0000_0000_0000_0000,
                    0 <= cc_size <= 0x10_0000_0000_0000_0000,
            ;
            assert(0x10_0000_0000_0000_0000 * 0x10_0000_0000_0000_0000 == 0x100 * half());
        }
        assert(square@ == hb * hb);
        assert(rest@ == dd * cc_size);
        let disc = if cc <= 0 {
            let sum = wide_sum(square, rest);
            assert(sum@ == hb * hb - dd * cc);
            sum
        } else if wide_le(square, rest) {
            return None;
        } else {
            let difference = wide_difference(square, rest);
            assert(difference@ == hb * hb - dd * cc);
            difference
        };
        if disc.high == 0 && disc.low == 0 {
            return None;
        }
        assert(disc@ == self.discriminant(*ray));
        let root = wide_isqrt(disc);
        let exact = wide_le(disc, wide_product(root, root));
        let root_up: i128 = if exact {
            root as i128
        } else {
            root as i128 + 1
        };
        let near = div_floor((-hb - root_up) * 65536, dd);
        let far = div_floor((-hb + root as i128) * 65536, dd);
        if near >= 0 {
            Some(near)
        } else if far >= 0 {
            Some(far)
        } else {
            None
        }
    }

    /// The hit of `ray` on this sphere, known to the scene as `id`, if it
    /// lies strictly nearer than `closest`.
    pub fn intersect(&self, id: usize, ray: &Ray, closest: Fixed) -> (hit: Option<Rayhit>)
        ensures
            hit == self.spec_intersect(id, *ray, closest),
    {
        if !self.radius.is_finite() {
            return if closest.is_finite() {
                None
            } else {
                Some(
                    Rayhit::new(
                        Fixed::infinity(),
                        ray.direction.scale(Fixed::infinity()),
                        ray.direction.neg(),
                        self.material,
                        id,
                    ),
                )
            };
        }
        match self.solve(ray) {
            Some(t) => {
                if t < closest.raw as i128 {
                    let dist = Fixed { raw: clamp_to_raw(t) };
                    let pos = ray.at(dist);
                    Some(Rayhit::new(dist, pos, self.normal(pos), self.material, id))
                } else {
                    None
                }
            },
            None => None,
        }
    }
}

/// The two-by-two determinant `p * q - r * s`.
pub open spec fn minor(p: int, q: int, r: int, s: int) -> int {
    p * q - r * s
}

/// The sum `a * x + b * y + c * z`.
pub open spec fn expand(a: int, b: int, c: int, x: int, y: int, z: int) -> int {
    a * x + b * y + c * z
}

/// `v`, with the sign of `m` taken out: `v` for a positive `m`, its opposite
/// otherwise.
pub open spec fn oriented(v: int, m: int) -> int {
    if m > 0 {
        v
    } else {
        -v
    }
}

fn minor_wide(p: i128, q: i128, r: i128, s: i128) -> (d: i128)
    requires
        -0x1_0000_0000 <= p <= 0x1_0000_0000,
        -0x1_0000_0000 <= q <= 0x1_0000_0000,
        -0x1_0000_0000 <= r <= 0x1_0000_0000,
        -0x1_0000_0000 <= s <= 0x1_0000_0000,
    ensures
        d == minor(p as int, q as int, r as int, s as int),
        -0x2_0000_0000_0000_0000 <= d <= 0x2_0000_0000_0000_0000,
{
    let ghost small = 0x1_0000_0000int;
    mul_wide(p, q, Ghost(small), Ghost(small)) - mul_wide(r, s, Ghost(small), Ghost(small))
}

fn expand_wide(a: i128, b: i128, c: i128, x: i128, y: i128, z: i128) -> (d: i128)
    requires
        -0x1_0000_0000 <= a <= 0x1_0000_0000,
        -0x1_0000_0000 <= b <= 0x1_0000_0000,
        -0x1_0000_0000 <= c <= 0x1_0000_0000,
        -0x2_0000_0000_0000_0000 <= x <= 0x2_0000_0000_0000_0000,
        -0x2_0000_0000_0000_0000 <= y <= 0x2_0000_0000_0000_0000,
        -0x2_0000_0000_0000_0000 <= z <= 0x2_0000_0000_0000_0000,
    ensures
        d == expand(a as int, b as int, c as int, x as int, y as int, z as int),
        -0x6_0000_0000_0000_0000_0000_0000 <= d <= 0x6_0000_0000_0000_0000_0000_0000,
{
    let ghost small = 0x1_0000_0000int;
    let ghost big = 0x2_0000_0000_0000_0000int;
    mul_wide(a, x, Ghost(small), Ghost(big)) + mul_wide(b, y, Ghost(small), Ghost(big)) + mul_wide(
        c,
        z,
        Ghost(small),
        Ghost(big),
    )
}

/// A triangle with the corners `a`, `b` and `c`.
#[derive(Clone, Copy, Debug, PartialEq, Eq, Structural)]
pub struct Triangle {
    pub a: Point3D,
    pub b: Point3D,
    pub c: Point3D,
    pub material: Material,
}

impl Triangle {
    /// The exact vector from `b` to `a`, by component.
    pub open spec fn edge_b(&self) -> (int, int, int) {
        (self.a.x@ - self.b.x@, self.a.y@ - self.b.y@, self.a.z@ - self.b.z@)
    }

    /// The exact vector from `c` to `a`, by component.
    pub open spec fn edge_c(&self) -> (int, int, int) {
        (self.a.x@ - self.c.x@, self.a.y@ - self.c.y@, self.a.z@ - self.c.z@)
    }

    /// The exact vector from the origin of the ray to `a`, by component.
    pub open spec fn to_corner(&self, ray: Ray) -> (int, int, int) {
        (self.a.x@ - ray.origin.x@, self.a.y@ - ray.origin.y@, self.a.z@ - ray.origin.z@)
    }

    /// The determinant of the system
    /// `beta * (a - b) + gamma * (a - c) + t * direction = a - origin`.
    pub open spec fn det(&self, ray: Ray) -> int {
        let (a, b, c) = self.edge_b();
        let (d, e, f) = self.edge_c();
        let (g, h, i) = (ray.direction.x@, ray.direction.y@, ray.direction.z@);
        expand(a, b, c, minor(e, i, h, f), minor(g, f, d, i), minor(d, h, e, g))
    }

    /// The determinant of the system times the solution `beta`.
    pub open spec fn beta_num(&self, ray: Ray) -> int {
        let (d, e, f) = self.edge_c();
        let (g, h, i) = (ray.direction.x@, ray.direction.y@, ray.direction.z@);
        let (j, k, l) = self.to_corner(ray);
        expand(j, k, l, minor(e, i, h, f), minor(g, f, d, i), minor(d, h, e, g))
    }

    /// The determinant of the system times the solution `gamma`.
    pub open spec fn gamma_num(&self, ray: Ray) -> int {
        let (a, b, c) = self.edge_b();
        let (g, h, i) = (ray.direction.x@, ray.direction.y@, ray.direction.z@);
        let (j, k, l) = self.to_corner(ray);
        expand(i, h, g, minor(a, k, j, b), minor(j, c, a, l), minor(b, l, k, c))
    }

    /// The determinant of the system times the solution `t`.
    pub open spec fn t_num(&self, ray: Ray) -> int {
        let (a, b, c) = self.edge_b();
        let (d, e, f) = self.edge_c();
        let (j, k, l) = self.to_corner(ray);
        -expand(f, e, d, minor(a, k, j, b), minor(j, c, a, l), minor(b, l, k, c))
    }

    /// Numerator of the ray parameter of the meeting point, rounded down.
    pub open spec fn distance(&self, ray: Ray) -> int {
        let m = self.det(ray);
        (oriented(self.t_num(ray), m) * SCALE) / oriented(m, m)
    }

    /// Whether the meeting point of the ray with the plane of the triangle
    /// has barycentric coordinates `beta >= 0`, `gamma >= 0` with
    /// `beta + gamma <= 1`.
    pub open spec fn inside(&self, ray: Ray) -> bool {
        let m = self.det(ray);
        let nb = oriented(self.beta_num(ray), m);
        let ng = oriented(self.gamma_num(ray), m);
        m != 0 && 0 <= ng <= oriented(m, m) && 0 <= nb <= oriented(m, m) - ng
    }

    /// Numerator of the distance at which the ray meets the triangle: the
    /// system has a solution, the point lies inside, and the distance is
    /// positive and representable.
    pub open spec fn hit_distance(&self, ray: Ray) -> Option<int> {
        if self.inside(ray) && 0 < self.distance(ray) < RAW_MAX {
            Some(self.distance(ray))
        } else {
            None
        }
    }

    /// The exact vector from `a` to `c`, by component.
    pub open spec fn edge_to_c(&self) -> (int, int, int) {
        (self.c.x@ - self.a.x@, self.c.y@ - self.a.y@, self.c.z@ - self.a.z@)
    }

    /// The exact vector from `a` to `b`, by component.
    pub open spec fn edge_to_b(&self) -> (int, int, int) {
        (self.b.x@ - self.a.x@, self.b.y@ - self.a.y@, self.b.z@ - self.a.z@)
    }

    /// The unit normal of the plane: the unit vector along the exact cross
    /// product of the edge to `c` with the edge to `b`, rounded once. Its
    /// sign follows the winding of the corners.
    pub open spec fn spec_normal(&self, position: Point3D) -> Vector3D {
        unit_of(cross_exact(self.edge_to_c(), self.edge_to_b()))
    }

    /// The hit at the ray parameter with numerator `t`.
    pub open spec fn hit_at(&self, id: usize, ray: Ray, t: int) -> Rayhit {
        let pos = ray.spec_at(Fixed::of(t));
        Rayhit {
            dist: Fixed::of(t),
            pos,
            normal: self.spec_normal(pos),
            material: self.material,
            obj: id,
        }
    }

    /// The triangle is hit where the ray meets it, provided the distance
    /// does not exceed `closest`. A degenerate triangle is never hit.
    pub open spec fn spec_intersect(&self, id: usize, ray: Ray, closest: Fixed) -> Option<Rayhit> {
        match self.hit_distance(ray) {
            Some(t) => if t <= closest@ {
                Some(self.hit_at(id, ray, t))
            } else {
                None
            },
            None => None,
        }
    }

    /// The unit normal of the plane.
    pub fn normal(&self, position: Point3D) -> (n: Vector3D)
        ensures
            n == self.spec_normal(position),
    {
        let ghost small = 0x1_0000_0000int;
        let ux = diff_wide(self.c.x, self.a.x);
        let uy = diff_wide(self.c.y, self.a.y);
        let uz = diff_wide(self.c.z, self.a.z);
        let vx = diff_wide(self.b.x, self.a.x);
        let vy = diff_wide(self.b.y, self.a.y);
        let vz = diff_wide(self.b.z, self.a.z);
        let cx = mul_wide(uy, vz, Ghost(small), Ghost(small)) - mul_wide(
            uz,
            vy,
            Ghost(small),
            Ghost(small),
        );
        let cy = mul_wide(uz, vx, Ghost(small), Ghost(small)) - mul_wide(
            ux,
            vz,
            Ghost(small),
            Ghost(small),
        );
        let cz = mul_wide(ux, vy, Ghost(small), Ghost(small)) - mul_wide(
            uy,
            vx,
            Ghost(small),
            Ghost(small),
        );
        unit_of_wide(cx, cy, cz)
    }

    /// Numerator of the distance at which the ray meets the triangle.
    pub fn solve(&self, ray: &Ray) -> (t: Option<i128>)
        ensures
            t is Some <==> self.hit_distance(*ray) is Some,
            t matches Some(d) ==> self.hit_distance(*ray) == Some(d as int) && 0 < d < RAW_MAX,
    {
        let a = diff_wide(self.a.x, self.b.x);
        let b = diff_wide(self.a.y, self.b.y);
        let c = diff_wide(self.a.z, self.b.z);
        let d = diff_wide(self.a.x, self.c.x);
        let e = diff_wide(self.a.y, self.c.y);
        let f = diff_wide(self.a.z, self.c.z);
        let g = ray.direction.x.raw as i128;
        let h = ray.direction.y.raw as i128;
        let i = ray.direction.z.raw as i128;
        let j = diff_wide(self.a.x, ray.origin.x);
        let k = diff_wide(self.a.y, ray.origin.y);
        let l = diff_wide(self.a.z, ray.origin.z);
        let ei_hf = minor_wide(e, i, h, f);
        let gf_di = minor_wide(g, f, d, i);
        let dh_eg = minor_wide(d, h, e, g);
        let ak_jb = minor_wide(a, k, j, b);
        let jc_al = minor_wide(j, c, a, l);
        let bl_kc = minor_wide(b, l, k, c);
        let m = expand_wide(a, b, c, ei_hf, gf_di, dh_eg);
        if m == 0 {
            return None;
        }
        let beta = expand_wide(j, k, l, ei_hf, gf_di, dh_eg);
        let gamma = expand_wide(i, h, g, ak_jb, jc_al, bl_kc);
        let t = -expand_wide(f, e, d, ak_jb, jc_al, bl_kc);
        let mm = if m > 0 {
            m
        } else {
            -m
        };
        let nb = if m > 0 {
            beta
        } else {
            -beta
        };
        let ng = if m > 0 {
            gamma
        } else {
            -gamma
        };
        let nt = if m > 0 {
            t
        } else {
            -t
        };
        if ng < 0 || ng > mm || nb < 0 || nb > mm - ng {
            return None;
        }
        let dist = div_floor(nt * 65536, mm);
        if dist <= 0 || dist >= RAW_MAX as i128 {
            None
        } else {
            Some(dist)
        }
    }

    /// The hit of `ray` on this triangle, known to the scene as `id`, if it
    /// lies no farther than `closest`.
    pub fn intersect(&self, id: usize, ray: &Ray, closest: Fixed) -> (hit: Option<Rayhit>)
        ensures
            hit == self.spec_intersect(id, *ray, closest),
    {
        match self.solve(ray) {
            Some(t) => {
                if t <= closest.raw as i128 {
                    let dist = Fixed { raw: clamp_to_raw(t) };
                    let pos = ray.at(dist);
                    Some(Rayhit::new(dist, pos, self.normal(pos), self.material, id))
                } else {
                    None
                }
            },
            None => None,
        }
    }
}

/// A primitive of the scene.
#[derive(Clone, Copy, Debug, PartialEq, Eq, Structural)]
pub enum Geometry {
    Sphere(Sphere),
    Triangle(Triangle),
}

impl Geometry {
    /// The hit of `ray` on this primitive, known to the scene as `id`, that
    /// `closest` admits: that of the sphere or of the triangle.
    #[verifier::opaque]
    pub open spec fn spec_intersect(&self, id: usize, ray: Ray, closest: Fixed) -> Option<Rayhit> {
        match *self {
            Geometry::Sphere(s) => s.spec_intersect(id, ray, closest),
            Geometry::Triangle(t) => t.spec_intersect(id, ray, closest),
        }
    }

    pub open spec fn spec_normal(&self, position: Point3D) -> Vector3D {
        match *self {
            Geometry::Sphere(s) => s.spec_normal(position),
            Geometry::Triangle(t) => t.spec_normal(position),
        }
    }

    /// The material of the primitive.
    pub open spec fn spec_material(&self) -> Material {
        match *self {
            Geometry::Sphere(s) => s.material,
            Geometry::Triangle(t) => t.material,
        }
    }

    /// The hit of `ray` on this primitive, known to the scene as `id`, that
    /// `closest` admits.
    pub fn intersect(&self, id: usize, ray: &Ray, closest: Fixed) -> (hit: Option<Rayhit>)
        ensures
            hit == self.spec_intersect(id, *ray, closest),
    {
        proof {
            reveal(Geometry::spec_intersect);
        }
        match self {
            Geometry::Sphere(s) => s.intersect(id, ray, closest),
            Geometry::Triangle(t) => t.intersect(id, ray, closest),
        }
    }

    /// The unit normal of the surface at `position`.
    pub fn normal(&self, position: Point3D) -> (n: Vector3D)
        ensures
            n == self.spec_normal(position),
    {
        match self {
            Geometry::Sphere(s) => s.normal(position),
            Geometry::Triangle(t) => t.normal(position),
        }
    }
}

} // verus!
