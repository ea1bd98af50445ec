//! What holds of the renderer for every scene: proved statements about the
//! nearest hit, about shading and about the two eyes of a stereo render.

use crate::fixed::clamp_raw;
use crate::fixed::lemma_isqrt_exists;
use crate::fixed::lemma_product_not_negative;
use crate::fixed::lemma_signed_power_not_negative;
use crate::fixed::lemma_zero_is_neutral;
use crate::fixed::Fixed;
use crate::fixed::RAW_MAX;
use crate::fixed::SCALE;
use crate::image::in_bounds;
use crate::image::raw_to_byte;
use crate::image::Color;
use crate::matrix::vector::lemma_zero_vector;
use crate::matrix::vector::Vector3D;
use crate::raytracer::algebra::lemma_complete_square;
use crate::raytracer::algebra::lemma_cramer_first;
use crate::raytracer::algebra::lemma_cramer_second;
use crate::raytracer::algebra::lemma_cramer_third;
use crate::raytracer::algebra::lemma_equal_fractions;
use crate::raytracer::algebra::lemma_floor_bracket;
use crate::raytracer::algebra::lemma_negated_product;
use crate::raytracer::algebra::lemma_numerators_rearranged;
use crate::raytracer::algebra::lemma_square_near;
use crate::raytracer::algebra::lemma_substitute_rows;
use crate::raytracer::algebra::lemma_swap;
use crate::raytracer::closest_of;
use crate::raytracer::AMBIENT;
use crate::raytracer::dimmed;
use crate::raytracer::eye_shift;
use crate::raytracer::geometry::intensity_sum;
use crate::raytracer::geometry::material::is_unit;
use crate::raytracer::geometry::oriented;
use crate::raytracer::geometry::Geometry;
use crate::raytracer::geometry::Light;
use crate::raytracer::geometry::Ray;
use crate::raytracer::geometry::Rayhit;
use crate::raytracer::geometry::Sphere;
use crate::raytracer::geometry::Triangle;
use crate::raytracer::left_eye;
use crate::raytracer::light_distance;
use crate::raytracer::light_reaching;
use crate::raytracer::light_term;
use crate::raytracer::lights_sum;
use crate::raytracer::local_shade;
use crate::raytracer::nearest_hit;
use crate::raytracer::pixel_color;
use crate::raytracer::reflected;
use crate::raytracer::rays_upto;
use crate::raytracer::right_eye;
use crate::raytracer::row_rays;
use crate::raytracer::secondary_ray;
use crate::raytracer::shadow_ray;
use crate::raytracer::shadowed_term;
use crate::raytracer::spec_shade;
use crate::raytracer::spec_trace;
use crate::raytracer::weighed;
use crate::raytracer::weighted_mean;
use crate::raytracer::Anaglyph;
use crate::raytracer::Antialiasing;
use crate::raytracer::Camera;
use crate::raytracer::Viewport;
use vstd::arithmetic::div_mod::lemma_fundamental_div_mod_converse;
use vstd::prelude::*;

verus! {

/// The hit of `ray` on the primitive `i` of the scene when no other hit is
/// known.
pub open spec fn candidate(scene: Seq<Geometry>, ray: Ray, i: int) -> Option<Rayhit> {
    scene[i].spec_intersect(i as usize, ray, Fixed::of(RAW_MAX as int))
}

/// Whether the primitive `i` takes part in the scan.
pub open spec fn scanned(ignore: Option<usize>, i: int, n: nat) -> bool {
    0 <= i < n && ignore != Some(i as usize)
}

/// Whether `ray` starts on the surface of the finite sphere `g`.
pub open spec fn starts_on(g: Geometry, ray: Ray) -> bool {
    match g {
        Geometry::Sphere(s) => s.radius.spec_is_finite() && s.hit_distance(ray) == Some(0int),
        Geometry::Triangle(_) => false,
    }
}

/// A bound on the distance only removes hits: a hit that the bound admits
/// is the hit without a bound, carries the index it was asked with and lies
/// within the bound; a hit that the bound removes lies at or beyond it.
pub proof fn lemma_bound_prunes(g: Geometry, id: usize, ray: Ray, closest: Fixed)
    requires
        closest@ >= 0,
    ensures
        g.spec_intersect(id, ray, closest) matches Some(hit) ==> {
            &&& g.spec_intersect(id, ray, Fixed::of(RAW_MAX as int)) == Some(hit)
            &&& hit.obj == id
            &&& 0 <= hit.dist@ <= closest@
        },
        g.spec_intersect(id, ray, Fixed::of(RAW_MAX as int)) matches Some(hit) ==> {
            &&& hit.obj == id
            &&& hit.dist@ >= 0
            &&& g.spec_intersect(id, ray, closest) is None ==> hit.dist@ >= closest@
            &&& hit.dist@ == 0 ==> starts_on(g, ray)
        },
{
    reveal(Geometry::spec_intersect);
}

/// A hit carries the material of the primitive that was hit and the index
/// that the primitive was asked with.
pub proof fn lemma_hit_carries_material(g: Geometry, id: usize, ray: Ray, closest: Fixed)
    ensures
        g.spec_intersect(id, ray, closest) matches Some(hit) ==> hit.material == g.spec_material()
            && hit.obj == id,
{
    reveal(Geometry::spec_intersect);
}

/// The scan keeps the nearest hit: the hit it keeps is the unbounded hit of
/// a primitive that took part, no primitive that took part has a nearer
/// one, and nothing is kept only if no primitive that took part is hit. The
/// distance of the hit is positive unless the ray starts on the surface of
/// the sphere it hits.
pub proof fn lemma_nearest_hit_is_nearest(
    scene: Seq<Geometry>,
    ray: Ray,
    ignore: Option<usize>,
    n: nat,
)
    requires
        n <= scene.len() <= usize::MAX,
    ensures
        match nearest_hit(scene, ray, ignore, n) {
            Some(hit) => {
                &&& scanned(ignore, hit.obj as int, n)
                &&& candidate(scene, ray, hit.obj as int) == Some(hit)
                &&& hit.dist@ >= 0
                &&& hit.dist@ > 0 || starts_on(scene[hit.obj as int], ray)
                &&& forall|i: int|
                    scanned(ignore, i, n) ==> (#[trigger] candidate(scene, ray, i) matches Some(
                        other,
                    ) ==> hit.dist@ <= other.dist@)
            },
            None => forall|i: int|
                scanned(ignore, i, n) ==> #[trigger] candidate(scene, ray, i) is None,
        },
    decreases n,
{
    if n > 0 {
        let m = (n - 1) as nat;
        lemma_nearest_hit_is_nearest(scene, ray, ignore, m);
        let best = nearest_hit(scene, ray, ignore, m);
        let i = m as usize;
        if ignore != Some(i) {
            lemma_bound_prunes(scene[m as int], i, ray, closest_of(best));
        }
    }
}

/// Whether two hits lie on the same surface at the same place: they agree
/// in all but the index of the primitive.
pub open spec fn same_surface(a: Option<Rayhit>, b: Option<Rayhit>) -> bool {
    match (a, b) {
        (Some(x), Some(y)) => x.dist == y.dist && x.pos == y.pos && x.normal == y.normal
            && x.material == y.material,
        (None, None) => true,
        _ => false,
    }
}

/// The index that a primitive is asked with goes into the hit and decides
/// nothing else.
pub proof fn lemma_hit_ignores_index(g: Geometry, first: usize, second: usize, ray: Ray, c: Fixed)
    ensures
        same_surface(g.spec_intersect(first, ray, c), g.spec_intersect(second, ray, c)),
{
    reveal(Geometry::spec_intersect);
}

/// The nearest hit does not depend on the order of the scene. Let `other`
/// hold the primitives of `scene` in another order, and let the ray meet no
/// two primitives at the same distance: then the scans of both keep a hit
/// on the same surface at the same place, or both keep none.
pub proof fn lemma_nearest_hit_any_order(
    scene: Seq<Geometry>,
    other: Seq<Geometry>,
    ray: Ray,
    to: Seq<int>,
    back: Seq<int>,
)
    requires
        scene.len() == other.len() <= usize::MAX,
        to.len() == scene.len(),
        back.len() == scene.len(),
        forall|i: int|
            0 <= i < other.len() ==> 0 <= #[trigger] to[i] < scene.len() && other[i] == scene[to[i]],
        forall|j: int|
            0 <= j < scene.len() ==> 0 <= #[trigger] back[j] < other.len() && scene[j]
                == other[back[j]],
        forall|i: int, j: int|
            0 <= i < scene.len() && 0 <= j < scene.len() && i != j ==> (#[trigger] candidate(
                scene,
                ray,
                i,
            ) matches Some(a) ==> (#[trigger] candidate(scene, ray, j) matches Some(b) ==> a.dist
                != b.dist)),
    ensures
        same_surface(
            nearest_hit(scene, ray, None, scene.len()),
            nearest_hit(other, ray, None, other.len()),
        ),
{
    let n = scene.len();
    lemma_nearest_hit_is_nearest(scene, ray, None, n);
    lemma_nearest_hit_is_nearest(other, ray, None, n);
    let inf = Fixed::of(RAW_MAX as int);
    let here = nearest_hit(scene, ray, None, n);
    let there = nearest_hit(other, ray, None, n);
    match there {
        Some(y) => {
            let b = y.obj as int;
            let a = to[b];
            assert(scanned(None, a, n));
            lemma_hit_ignores_index(scene[a], b as usize, a as usize, ray, inf);
            assert(candidate(other, ray, b) == Some(y));
            assert(candidate(scene, ray, a) is Some);
            let x = here.unwrap();
            let m = x.obj as int;
            let back_m = back[m];
            assert(scanned(None, back_m, n));
            lemma_hit_ignores_index(scene[m], m as usize, back_m as usize, ray, inf);
            assert(candidate(other, ray, back_m) is Some);
            assert(candidate(scene, ray, m) == Some(x));
            assert(x.dist@ <= candidate(scene, ray, a).unwrap().dist@);
            assert(y.dist@ <= candidate(other, ray, back_m).unwrap().dist@);
            if a != m {
                assert(candidate(scene, ray, a).unwrap().dist != candidate(
                    scene,
                    ray,
                    m,
                ).unwrap().dist);
            }
        },
        None => {
            if here is Some {
                let x = here.unwrap();
                let m = x.obj as int;
                let back_m = back[m];
                assert(scanned(None, back_m, n));
                lemma_hit_ignores_index(scene[m], m as usize, back_m as usize, ray, inf);
                assert(candidate(scene, ray, m) == Some(x));
                assert(candidate(other, ray, back_m) is None);
            }
        },
    }
}

/// A ray that leaves a surface never hits that surface again: the scan that
/// passes over the primitive `skip` keeps no hit on `skip`.
pub proof fn lemma_ignored_is_never_hit(scene: Seq<Geometry>, ray: Ray, skip: usize)
    requires
        scene.len() <= usize::MAX,
    ensures
        nearest_hit(scene, ray, Some(skip), scene.len()) matches Some(hit) ==> hit.obj != skip,
{
    lemma_nearest_hit_is_nearest(scene, ray, Some(skip), scene.len());
}

/// The numerators of a triangle test solve the system of the test: with
/// `beta`, `gamma` and `t` the three numerators over the determinant, the
/// point of the ray at `t` is the point of the plane with the barycentric
/// coordinates `beta` and `gamma`,
/// `origin + t * direction = a + beta * (b - a) + gamma * (c - a)`. Here each
/// row is multiplied by the determinant.
pub proof fn lemma_triangle_numerators_solve(tri: Triangle, ray: Ray)
    ensures
        ({
            let (a, b, c) = tri.edge_b();
            let (d, e, f) = tri.edge_c();
            let (g, h, i) = (ray.direction.x@, ray.direction.y@, ray.direction.z@);
            let (j, k, l) = tri.to_corner(ray);
            let m = tri.det(ray);
            let nb = tri.beta_num(ray);
            let ng = tri.gamma_num(ray);
            let nt = tri.t_num(ray);
            &&& a * nb + d * ng + g * nt == j * m
            &&& b * nb + e * ng + h * nt == k * m
            &&& c * nb + f * ng + i * nt == l * m
        }),
{
    let (a, b, c) = tri.edge_b();
    let (d, e, f) = tri.edge_c();
    let (g, h, i) = (ray.direction.x@, ray.direction.y@, ray.direction.z@);
    let (j, k, l) = tri.to_corner(ray);
    lemma_cramer_first(a, b, c, d, e, f, g, h, i, j, k, l);
    lemma_cramer_second(a, b, c, d, e, f, g, h, i, j, k, l);
    lemma_cramer_third(a, b, c, d, e, f, g, h, i, j, k, l);
}

/// A triangle is hit exactly where the ray meets its plane at barycentric
/// coordinates `beta >= 0`, `gamma >= 0` with `beta + gamma <= 1`, at a
/// distance that is positive, representable and within the bound. In
/// particular it is not hit where `beta + gamma > 1`, nor where the system
/// has no single solution.
pub proof fn lemma_triangle_hit_iff_inside(tri: Triangle, id: usize, ray: Ray, closest: Fixed)
    ensures
        tri.spec_intersect(id, ray, closest) is Some <==> tri.inside(ray) && 0 < tri.distance(ray)
            < RAW_MAX && tri.distance(ray) <= closest@,
        tri.spec_intersect(id, ray, closest) matches Some(hit) ==> hit.dist@ == tri.distance(ray)
            && hit.obj == id && hit.pos == ray.spec_at(hit.dist),
        tri.inside(ray) <==> {
            let m = tri.det(ray);
            let beta = oriented(tri.beta_num(ray), m);
            let gamma = oriented(tri.gamma_num(ray), m);
            m != 0 && beta >= 0 && gamma >= 0 && beta + gamma <= oriented(m, m)
        },
        oriented(tri.beta_num(ray), tri.det(ray)) + oriented(tri.gamma_num(ray), tri.det(ray))
            > oriented(tri.det(ray), tri.det(ray)) ==> tri.spec_intersect(id, ray, closest) is None,
        tri.det(ray) == 0 ==> tri.spec_intersect(id, ray, closest) is None,
{
}

/// A triangle is hit where a ray meets it inside. Let the ray meet the
/// plane of the triangle in the point with the barycentric coordinates
/// `beta = nb / q` and `gamma = ng / q`, at the ray parameter `t = nt / q`:
/// `origin + t * direction = a + beta * (b - a) + gamma * (c - a)`, for a
/// triangle that is not degenerate and a ray that is not parallel to it.
/// Then the distance that the test computes is `t` rounded down, and the
/// triangle is hit exactly if `beta >= 0`, `gamma >= 0`,
/// `beta + gamma <= 1` and that distance is positive, representable and
/// within the bound. Where `beta + gamma > 1` there is no hit.
pub proof fn lemma_barycentric_point(
    tri: Triangle,
    id: usize,
    ray: Ray,
    closest: Fixed,
    nb: int,
    ng: int,
    nt: int,
    q: int,
)
    requires
        q > 0,
        tri.det(ray) != 0,
        tri.edge_b().0 * nb + tri.edge_c().0 * ng + ray.direction.x@ * nt == tri.to_corner(ray).0
            * q,
        tri.edge_b().1 * nb + tri.edge_c().1 * ng + ray.direction.y@ * nt == tri.to_corner(ray).1
            * q,
        tri.edge_b().2 * nb + tri.edge_c().2 * ng + ray.direction.z@ * nt == tri.to_corner(ray).2
            * q,
    ensures
        tri.inside(ray) <==> nb >= 0 && ng >= 0 && nb + ng <= q,
        tri.distance(ray) == (nt * SCALE) / q,
        tri.spec_intersect(id, ray, closest) is Some <==> nb >= 0 && ng >= 0 && nb + ng <= q && 0
            < (nt * SCALE) / q < RAW_MAX && (nt * SCALE) / q <= closest@,
        nb + ng > q ==> tri.spec_intersect(id, ray, closest) is None,
{
    let (a, b, c) = tri.edge_b();
    let (d, e, f) = tri.edge_c();
    let (g, h, i) = (ray.direction.x@, ray.direction.y@, ray.direction.z@);
    let (j, k, l) = tri.to_corner(ray);
    let m = tri.det(ray);
    let beta = tri.beta_num(ray);
    let gamma = tri.gamma_num(ray);
    let t = tri.t_num(ray);
    lemma_numerators_rearranged(a, b, c, d, e, f, g, h, i, j, k, l);
    assert(q * beta == nb * m) by {
        lemma_substitute_rows(
            q,
            nb,
            ng,
            nt,
            a,
            b,
            c,
            d,
            e,
            f,
            g,
            h,
            i,
            j,
            k,
            l,
            e * i - h * f,
            g * f - d * i,
            d * h - e * g,
        );
    }
    assert(q * gamma == ng * m) by {
        lemma_substitute_rows(
            q,
            nb,
            ng,
            nt,
            a,
            b,
            c,
            d,
            e,
            f,
            g,
            h,
            i,
            j,
            k,
            l,
            h * c - i * b,
            i * a - g * c,
            g * b - h * a,
        );
    }
    assert(q * t == nt * m) by {
        lemma_substitute_rows(
            q,
            nb,
            ng,
            nt,
            a,
            b,
            c,
            d,
            e,
            f,
            g,
            h,
            i,
            j,
            k,
            l,
            b * f - e * c,
            c * d - f * a,
            a * e - d * b,
        );
    }
    let mm = oriented(m, m);
    let ob = oriented(beta, m);
    let og = oriented(gamma, m);
    let ot = oriented(t, m);
    lemma_swap(q, beta);
    lemma_swap(q, gamma);
    lemma_swap(q, t);
    lemma_negated_product(beta, q);
    lemma_negated_product(gamma, q);
    lemma_negated_product(t, q);
    lemma_negated_product(nb, m);
    lemma_negated_product(ng, m);
    lemma_negated_product(nt, m);
    assert(ob * q == nb * mm);
    assert(og * q == ng * mm);
    assert(ot * q == nt * mm);
    lemma_equal_fractions(ob, mm, nb, q);
    lemma_equal_fractions(og, mm, ng, q);
    assert((ob + og) * q == (nb + ng) * mm) by (nonlinear_arith)
        requires
            ob * q == nb * mm,
            og * q == ng * mm,
    ;
    lemma_equal_fractions(ob + og, mm, nb + ng, q);
    assert((ot * SCALE) * q == (nt * SCALE) * mm) by (nonlinear_arith)
        requires
            ot * q == nt * mm,
    ;
    lemma_equal_fractions(ot * SCALE, mm, nt * SCALE, q);
}

/// A sphere is hit exactly where the quadratic of the test, with its exact
/// coefficients, has two roots of which one is not negative. With the
/// discriminant positive, the smaller root `(-b - sqrt(disc)) / dd` is not
/// negative exactly if `b <= 0` and the origin of the ray lies on or outside
/// the sphere; the larger root is not negative exactly if `b <= 0` or the
/// origin lies on or inside the sphere. The rounded roots have the signs of
/// the exact ones.
pub proof fn lemma_sphere_hit_iff_root(s: Sphere, ray: Ray)
    ensures
        Sphere::dir_sq(ray) > 0 && s.discriminant(ray) > 0 ==> {
            &&& s.near_root(ray) >= 0 <==> s.half_b(ray) <= 0 && s.free_term(ray) >= 0
            &&& s.far_root(ray) >= 0 <==> s.half_b(ray) <= 0 || s.free_term(ray) <= 0
            &&& s.near_root(ray) <= s.far_root(ray)
        },
        s.hit_distance(ray) is Some <==> Sphere::dir_sq(ray) > 0 && s.discriminant(ray) > 0 && (
        s.half_b(ray) <= 0 || s.free_term(ray) <= 0),
{
    let dd = Sphere::dir_sq(ray);
    let b = s.half_b(ray);
    let cc = s.free_term(ray);
    let disc = s.discriminant(ray);
    if dd > 0 && disc > 0 {
        let rf = s.root_floor(ray);
        let rc = s.root_ceil(ray);
        let k = SCALE as int;
        lemma_isqrt_exists(disc);
        assert((rc - 1) * (rc - 1) < disc <= rc * rc && rc >= 1) by (nonlinear_arith)
            requires
                rf * rf <= disc < (rf + 1) * (rf + 1),
                rc == if rf * rf == disc {
                    rf
                } else {
                    rf + 1
                },
                rf >= 0,
                disc > 0,
        ;
        let low = (-b - rc) * k;
        let high = (-b + rf) * k;
        lemma_floor_bracket(low, dd);
        lemma_floor_bracket(high, dd);
        assert((low / dd >= 0 <==> low >= 0) && (high / dd >= 0 <==> high >= 0) && (low <= high
            ==> low / dd <= high / dd)) by (nonlinear_arith)
            requires
                dd > 0,
                dd * (low / dd) <= low < dd * (low / dd) + dd,
                dd * (high / dd) <= high < dd * (high / dd) + dd,
        ;
        assert(low >= 0 <==> rc <= -b);
        assert(high >= 0 <==> rf >= b);
        assert(low <= high);
        assert(rc <= -b <==> b <= 0 && disc <= b * b) by (nonlinear_arith)
            requires
                (rc - 1) * (rc - 1) < disc <= rc * rc,
                rc >= 1,
        ;
        assert(rf >= b <==> b <= 0 || disc >= b * b) by (nonlinear_arith)
            requires
                rf * rf <= disc < (rf + 1) * (rf + 1),
                rf >= 0,
        ;
        assert((disc <= b * b <==> cc >= 0) && (disc >= b * b <==> cc <= 0)) by (nonlinear_arith)
            requires
                disc == b * b - dd * cc,
                dd > 0,
        ;
    }
}

/// The squared distance from the centre of the sphere to the exact point
/// `origin + direction * t` of the ray, less the squared radius, scaled by
/// the fourth power of `65536`: the quadratic of the sphere test at the ray
/// parameter with the numerator `t`.
pub open spec fn sphere_offset(s: Sphere, ray: Ray, t: int) -> int {
    Sphere::dir_sq(ray) * (t * t) + s.half_b(ray) * (2 * SCALE * t) + s.free_term(ray) * (SCALE
        * SCALE)
}

/// The room that the rounding of the square root and of the quotient leaves
/// to the quadratic of the sphere test.
pub open spec fn sphere_slack(s: Sphere, ray: Ray) -> int {
    let r = s.root_ceil(ray);
    let dd = Sphere::dir_sq(ray);
    SCALE * SCALE * (2 * r + 1) + dd * (2 * (r * SCALE) + dd)
}

/// A sphere is hit on its surface, up to rounding. The coefficients of the
/// quadratic are exact, so for the distance `t` of a hit the squared
/// distance of the exact point `origin + direction * t` to the centre
/// differs from the squared radius by no more than the rounding of the
/// square root and of the quotient leaves room for.
pub proof fn lemma_sphere_hit_on_surface(s: Sphere, ray: Ray)
    requires
        s.hit_distance(ray) is Some,
    ensures
        ({
            let t = s.hit_distance(ray).unwrap();
            let dd = Sphere::dir_sq(ray);
            &&& t >= 0
            &&& dd > 0
            &&& -sphere_slack(s, ray) < dd * sphere_offset(s, ray, t) < sphere_slack(s, ray)
        }),
{
    let t = s.hit_distance(ray).unwrap();
    let dd = Sphere::dir_sq(ray);
    let b = s.half_b(ray);
    let cc = s.free_term(ray);
    let disc = s.discriminant(ray);
    let rf = s.root_floor(ray);
    let rc = s.root_ceil(ray);
    let k = SCALE as int;
    lemma_isqrt_exists(disc);
    let near = s.near_root(ray) >= 0;
    let r = if near {
        rc
    } else {
        rf
    };
    let u = if near {
        -b - rc
    } else {
        -b + rf
    };
    assert(t == (u * k) / dd);
    lemma_floor_bracket(u * k, dd);
    let w = dd * t + b * k;
    let c = r * k;
    let top = rc * k;
    assert(u * k == if near {
        -(b * k) - c
    } else {
        -(b * k) + c
    }) by (nonlinear_arith)
        requires
            u == if near {
                -b - r
            } else {
                -b + r
            },
            c == r * k,
    ;
    lemma_swap(dd, t);
    lemma_square_near(w, c, dd);
    lemma_complete_square(dd, b, cc, t, k);
    assert(dd * sphere_offset(s, ray, t) == w * w - (k * k) * disc);
    assert(c * c == (k * k) * (r * r)) by (nonlinear_arith)
        requires
            c == r * k,
    ;
    assert((rc - 1) * (rc - 1) < disc <= rc * rc) by (nonlinear_arith)
        requires
            rf * rf <= disc < (rf + 1) * (rf + 1),
            rc == if rf * rf == disc {
                rf
            } else {
                rf + 1
            },
            rf >= 0,
            disc > 0,
    ;
    assert((k * k) * (rc * rc) - (k * k) * (2 * rc - 1) < (k * k) * disc <= (k * k) * (rc * rc))
        by (nonlinear_arith)
        requires
            (rc - 1) * (rc - 1) < disc <= rc * rc,
            k == 65536,
    ;
    assert((k * k) * (rf * rf) <= (k * k) * disc < (k * k) * (rf * rf) + (k * k) * (2 * rf + 1))
        by (nonlinear_arith)
        requires
            rf * rf <= disc < (rf + 1) * (rf + 1),
            k == 65536,
    ;
    assert(dd * (2 * c + dd) <= dd * (2 * top + dd) && (k * k) * (2 * rf + 1) <= (k * k) * (2 * rc
        + 1)) by (nonlinear_arith)
        requires
            0 <= c <= top,
            dd > 0,
            rf <= rc,
            k == 65536,
    ;
}

/// One coordinate of the point of a ray at the parameter `t`, for the
/// coordinate `o` of the origin and `d` of the direction.
pub open spec fn ray_coordinate(o: Fixed, d: Fixed, t: Fixed) -> Fixed {
    o.spec_add(d.spec_mul(t))
}

/// Whether the product `d * t` and its sum with `o` can be represented.
pub open spec fn coordinate_fits(o: Fixed, d: Fixed, t: Fixed) -> bool {
    let step = (d@ * t@) / (SCALE as int);
    clamp_raw(step) == step && clamp_raw(o@ + step) == o@ + step
}

/// The point that a hit records lies less than one unit of the last place
/// below the exact point of the ray, in each coordinate that can be
/// represented.
pub proof fn lemma_ray_point_rounds_down(ray: Ray, t: Fixed)
    ensures
        ray.spec_at(t).x == ray_coordinate(ray.origin.x, ray.direction.x, t),
        ray.spec_at(t).y == ray_coordinate(ray.origin.y, ray.direction.y, t),
        ray.spec_at(t).z == ray_coordinate(ray.origin.z, ray.direction.z, t),
        forall|o: Fixed, d: Fixed|
            coordinate_fits(o, d, t) ==> SCALE * (#[trigger] ray_coordinate(o, d, t))@ <= SCALE * o@
                + d@ * t@ < SCALE * ray_coordinate(o, d, t)@ + SCALE,
{
    assert forall|o: Fixed, d: Fixed| coordinate_fits(o, d, t) implies SCALE * (
    #[trigger] ray_coordinate(o, d, t))@ <= SCALE * o@ + d@ * t@ < SCALE * ray_coordinate(o, d, t)@
        + SCALE by {
        lemma_floor_bracket(d@ * t@, SCALE as int);
    }
}

/// Whether nothing but the surface of the hit itself lies between the hit
/// and the light.
pub open spec fn unoccluded(scene: Seq<Geometry>, hit: Rayhit, light: Light) -> bool {
    forall|i: int|
        0 <= i < scene.len() && i != hit.obj ==> (#[trigger] scene[i]).spec_intersect(
            i as usize,
            shadow_ray(hit, light),
            light_distance(hit, light),
        ) is None
}

/// The weighted sum of what the first `n` lights show of a hit on which no
/// shadow falls.
pub open spec fn direct_sum(ray: Ray, hit: Rayhit, sources: Seq<Light>, n: nat) -> (
    int,
    int,
    int,
    Fixed,
)
    decreases n,
{
    if n == 0 {
        (0, 0, 0, Fixed::of(0))
    } else {
        weighed(
            direct_sum(ray, hit, sources, (n - 1) as nat),
            light_term(ray, hit, sources[n - 1], Fixed::of(SCALE as int)),
            sources[n - 1].intensity,
        )
    }
}

/// The direct lighting of a hit on which no shadow falls.
pub open spec fn direct_lighting(ray: Ray, hit: Rayhit, sources: Seq<Light>, total: Fixed) -> Color {
    if total@ > 0 {
        weighted_mean(direct_sum(ray, hit, sources, sources.len()), total@)
    } else {
        Color::spec_clear()
    }
}

/// Without an occluder all of a light arrives.
pub proof fn lemma_unoccluded_light_arrives(scene: Seq<Geometry>, hit: Rayhit, light: Light, n: nat)
    requires
        n <= scene.len() <= usize::MAX,
        unoccluded(scene, hit, light),
    ensures
        light_reaching(scene, shadow_ray(hit, light), light_distance(hit, light), hit.obj, n)
            == Fixed::of(SCALE as int),
    decreases n,
{
    if n > 0 {
        lemma_unoccluded_light_arrives(scene, hit, light, (n - 1) as nat);
        assert(scene[n - 1] == scene[n - 1]);
    }
}

/// Without occluders the lights add what they add without shadows.
pub proof fn lemma_unoccluded_sum_is_direct(
    ray: Ray,
    hit: Rayhit,
    scene: Seq<Geometry>,
    sources: Seq<Light>,
    n: nat,
)
    requires
        scene.len() <= usize::MAX,
        n <= sources.len(),
        forall|k: int| 0 <= k < sources.len() ==> unoccluded(scene, hit, #[trigger] sources[k]),
    ensures
        lights_sum(ray, hit, scene, sources, n) == direct_sum(ray, hit, sources, n),
    decreases n,
{
    if n > 0 {
        lemma_unoccluded_sum_is_direct(ray, hit, scene, sources, (n - 1) as nat);
        lemma_unoccluded_light_arrives(scene, hit, sources[n - 1], scene.len());
    }
}

/// An opaque surface that does not reflect shows its direct lighting and
/// nothing else, and one ray is followed for it. Where no occluder stands
/// between the surface and any light, that is the lighting without
/// shadows.
pub proof fn lemma_opaque_matte_shows_direct_light(
    ray: Ray,
    hit: Rayhit,
    scene: Seq<Geometry>,
    sources: Seq<Light>,
    total: Fixed,
    budget: nat,
)
    requires
        scene.len() <= usize::MAX,
        hit.dist.spec_is_finite(),
        hit.material.color.a@ >= SCALE,
        hit.material.reflectivity@ <= 0,
    ensures
        spec_shade(ray, hit, scene, sources, total, budget) == (
            local_shade(ray, hit, scene, sources, total),
            1nat,
        ),
        (forall|k: int| 0 <= k < sources.len() ==> unoccluded(scene, hit, #[trigger] sources[k]))
            ==> spec_shade(ray, hit, scene, sources, total, budget).0 == direct_lighting(
            ray,
            hit,
            sources,
            total,
        ),
{
    if forall|k: int| 0 <= k < sources.len() ==> unoccluded(scene, hit, #[trigger] sources[k]) {
        lemma_unoccluded_sum_is_direct(ray, hit, scene, sources, sources.len());
    }
}

/// Whether the primitives that `scene` has beyond the first `n` cast no
/// shadow between a hit and a light.
pub open spec fn bystanders(scene: Seq<Geometry>, n: nat, hit: Rayhit, light: Light) -> bool {
    forall|i: int|
        n <= i < scene.len() ==> (#[trigger] scene[i]).spec_intersect(
            i as usize,
            shadow_ray(hit, light),
            light_distance(hit, light),
        ) is None
}

/// Primitives that cast no shadow between a hit and a light leave the
/// share of the light that arrives as it is.
pub proof fn lemma_bystanders_cast_no_shadow(
    scene: Seq<Geometry>,
    more: Seq<Geometry>,
    hit: Rayhit,
    light: Light,
    n: nat,
)
    requires
        n <= scene.len() + more.len() <= usize::MAX,
        bystanders(scene + more, scene.len(), hit, light),
    ensures
        light_reaching(
            scene + more,
            shadow_ray(hit, light),
            light_distance(hit, light),
            hit.obj,
            n,
        ) == light_reaching(
            scene,
            shadow_ray(hit, light),
            light_distance(hit, light),
            hit.obj,
            if n <= scene.len() {
                n
            } else {
                scene.len()
            },
        ),
    decreases n,
{
    if n > 0 {
        lemma_bystanders_cast_no_shadow(scene, more, hit, light, (n - 1) as nat);
        let all = scene + more;
        if n <= scene.len() {
            assert(all[n - 1] == scene[n - 1]);
        } else {
            assert(all[n - 1].spec_intersect(
                (n - 1) as usize,
                shadow_ray(hit, light),
                light_distance(hit, light),
            ) is None);
        }
    }
}

/// The weighted sum over the lights does not change with primitives that
/// cast no shadow between the hit and any light.
pub proof fn lemma_bystanders_leave_the_sum(
    ray: Ray,
    hit: Rayhit,
    scene: Seq<Geometry>,
    more: Seq<Geometry>,
    sources: Seq<Light>,
    n: nat,
)
    requires
        scene.len() + more.len() <= usize::MAX,
        n <= sources.len(),
        forall|k: int|
            0 <= k < sources.len() ==> bystanders(
                scene + more,
                scene.len(),
                hit,
                #[trigger] sources[k],
            ),
    ensures
        lights_sum(ray, hit, scene + more, sources, n) == lights_sum(ray, hit, scene, sources, n),
    decreases n,
{
    if n > 0 {
        lemma_bystanders_leave_the_sum(ray, hit, scene, more, sources, (n - 1) as nat);
        lemma_bystanders_cast_no_shadow(
            scene,
            more,
            hit,
            sources[n - 1],
            scene.len() + more.len(),
        );
        assert((scene + more).len() == scene.len() + more.len());
    }
}

/// An opaque surface that does not reflect looks the same whatever the
/// budget of bounces and whatever primitives are added to the scene, as
/// long as these cast no shadow between the surface and any light: nothing
/// but the direct lighting is seen, and one ray is followed.
pub proof fn lemma_opaque_matte_ignores_bystanders(
    ray: Ray,
    hit: Rayhit,
    scene: Seq<Geometry>,
    more: Seq<Geometry>,
    sources: Seq<Light>,
    total: Fixed,
    budget: nat,
    other_budget: nat,
)
    requires
        scene.len() + more.len() <= usize::MAX,
        hit.dist.spec_is_finite(),
        hit.material.color.a@ >= SCALE,
        hit.material.reflectivity@ <= 0,
        forall|k: int|
            0 <= k < sources.len() ==> bystanders(
                scene + more,
                scene.len(),
                hit,
                #[trigger] sources[k],
            ),
    ensures
        spec_shade(ray, hit, scene, sources, total, budget) == spec_shade(
            ray,
            hit,
            scene,
            sources,
            total,
            other_budget,
        ),
        spec_shade(ray, hit, scene + more, sources, total, budget) == spec_shade(
            ray,
            hit,
            scene,
            sources,
            total,
            budget,
        ),
        spec_shade(ray, hit, scene, sources, total, budget).1 == 1,
{
    assert((scene + more).len() == scene.len() + more.len());
    lemma_opaque_matte_shows_direct_light(ray, hit, scene, sources, total, budget);
    lemma_opaque_matte_shows_direct_light(ray, hit, scene, sources, total, other_budget);
    lemma_opaque_matte_shows_direct_light(ray, hit, scene + more, sources, total, budget);
    lemma_bystanders_leave_the_sum(ray, hit, scene, more, sources, sources.len());
}

/// Two lights of one intensity that nothing occludes: each color channel
/// of the direct lighting is the sum of what the two lights show, each
/// times the intensity, divided by the sum of the two intensities.
pub proof fn lemma_two_equal_lights(
    ray: Ray,
    hit: Rayhit,
    scene: Seq<Geometry>,
    first: Light,
    second: Light,
)
    requires
        scene.len() <= usize::MAX,
        first.intensity == second.intensity,
        first.intensity@ > 0,
        unoccluded(scene, hit, first),
        unoccluded(scene, hit, second),
    ensures
        intensity_sum(seq![first, second], 2) == first.intensity.spec_add(second.intensity),
        ({
            let one = Fixed::of(SCALE as int);
            let t1 = light_term(ray, hit, first, one);
            let t2 = light_term(ray, hit, second, one);
            let weight = first.intensity@;
            let total = first.intensity.spec_add(second.intensity);
            local_shade(ray, hit, scene, seq![first, second], total) == (Color {
                r: Fixed::of((t1.r@ * weight + t2.r@ * weight) / total@),
                g: Fixed::of((t1.g@ * weight + t2.g@ * weight) / total@),
                b: Fixed::of((t1.b@ * weight + t2.b@ * weight) / total@),
                a: t1.a.spec_add(t2.a),
            })
        }),
{
    let sources = seq![first, second];
    let one = Fixed::of(SCALE as int);
    let total = first.intensity.spec_add(second.intensity);
    assert(intensity_sum(sources, 2) == total) by {
        reveal_with_fuel(intensity_sum, 3);
        lemma_zero_is_neutral(first.intensity);
    }
    assert(shadowed_term(ray, hit, scene, first) == light_term(ray, hit, first, one)) by {
        lemma_unoccluded_light_arrives(scene, hit, first, scene.len());
    }
    assert(shadowed_term(ray, hit, scene, second) == light_term(ray, hit, second, one)) by {
        lemma_unoccluded_light_arrives(scene, hit, second, scene.len());
    }
    let t1 = shadowed_term(ray, hit, scene, first);
    let t2 = shadowed_term(ray, hit, scene, second);
    let start = (0int, 0int, 0int, Fixed::of(0));
    assert(lights_sum(ray, hit, scene, sources, 0) == start);
    assert(lights_sum(ray, hit, scene, sources, 1) == weighed(start, t1, first.intensity));
    assert(lights_sum(ray, hit, scene, sources, 2) == weighed(
        lights_sum(ray, hit, scene, sources, 1),
        t2,
        second.intensity,
    ));
    lemma_zero_is_neutral(t1.a);
}

/// One light: the direct lighting is what the light shows, whatever its
/// intensity, for the intensity is both the weight and the total.
pub proof fn lemma_one_light(ray: Ray, hit: Rayhit, scene: Seq<Geometry>, light: Light)
    requires
        light.intensity@ > 0,
    ensures
        local_shade(ray, hit, scene, seq![light], light.intensity) == shadowed_term(
            ray,
            hit,
            scene,
            light,
        ),
{
    let sources = seq![light];
    let term = shadowed_term(ray, hit, scene, light);
    let weight = light.intensity@;
    let start = (0int, 0int, 0int, Fixed::of(0));
    assert(lights_sum(ray, hit, scene, sources, 0) == start);
    assert(lights_sum(ray, hit, scene, sources, 1) == weighed(start, term, light.intensity));
    lemma_zero_is_neutral(term.a);
    lemma_swap(term.r@, weight);
    lemma_swap(term.g@, weight);
    lemma_swap(term.b@, weight);
    lemma_fundamental_div_mod_converse(term.r@ * weight, weight, term.r@, 0);
    lemma_fundamental_div_mod_converse(term.g@ * weight, weight, term.g@, 0);
    lemma_fundamental_div_mod_converse(term.b@ * weight, weight, term.b@, 0);
}

/// An occluder whose opacity lies in the unit interval leaves a share of
/// the light that lies in the unit interval and is no larger than before.
pub proof fn lemma_dimmed_share(amount: Fixed, alpha: Fixed)
    requires
        is_unit(amount),
        is_unit(alpha),
    ensures
        is_unit(dimmed(amount, alpha)),
        dimmed(amount, alpha)@ <= amount@,
{
    let rest = SCALE - alpha@;
    assert(0 <= amount@ * rest <= amount@ * SCALE) by (nonlinear_arith)
        requires
            0 <= amount@,
            0 <= rest <= SCALE,
    ;
}

/// The share of a light that reaches a surface lies in the unit interval
/// and does not grow along the scan, if the opacity of every primitive of
/// the scene lies in the unit interval.
pub proof fn lemma_light_share_is_unit(
    scene: Seq<Geometry>,
    shadow: Ray,
    reach: Fixed,
    skip: usize,
    n: nat,
)
    requires
        n <= scene.len() <= usize::MAX,
        forall|i: int|
            0 <= i < scene.len() ==> is_unit((#[trigger] scene[i]).spec_material().color.a),
    ensures
        is_unit(light_reaching(scene, shadow, reach, skip, n)),
        n > 0 ==> light_reaching(scene, shadow, reach, skip, n)@ <= light_reaching(
            scene,
            shadow,
            reach,
            skip,
            (n - 1) as nat,
        )@,
    decreases n,
{
    if n > 0 {
        lemma_light_share_is_unit(scene, shadow, reach, skip, (n - 1) as nat);
        let before = light_reaching(scene, shadow, reach, skip, (n - 1) as nat);
        let i = (n - 1) as usize;
        if before@ > 0 && i != skip {
            assert(is_unit(scene[n - 1].spec_material().color.a));
            lemma_hit_carries_material(scene[n - 1], i, shadow, reach);
            match scene[n - 1].spec_intersect(i, shadow, reach) {
                Some(occluder) => {
                    lemma_dimmed_share(before, occluder.material.color.a);
                },
                None => {},
            }
        }
    }
}

/// The ambient term of a light on a hit: the product of the two colors
/// times the ambient share.
pub open spec fn ambient_share(hit: Rayhit, light: Light) -> Color {
    light.color.spec_modulate(hit.material.color).spec_scale(Fixed::of(AMBIENT as int))
}

/// Whether no color channel is negative.
pub open spec fn not_negative(c: Color) -> bool {
    c.r@ >= 0 && c.g@ >= 0 && c.b@ >= 0
}

/// Whether each color channel of `c` is at least the bound given for it.
pub open spec fn at_least(c: Color, low: (int, int, int)) -> bool {
    c.r@ >= low.0 && c.g@ >= low.1 && c.b@ >= low.2
}

/// The exact sum of the intensities of the first `n` lights.
pub open spec fn weight_sum(sources: Seq<Light>, n: nat) -> int
    decreases n,
{
    if n == 0 {
        0
    } else {
        weight_sum(sources, (n - 1) as nat) + sources[n - 1].intensity@
    }
}

/// The share of a light that arrives is never negative.
pub proof fn lemma_light_share_not_negative(
    scene: Seq<Geometry>,
    shadow: Ray,
    reach: Fixed,
    skip: usize,
    n: nat,
)
    ensures
        light_reaching(scene, shadow, reach, skip, n)@ >= 0,
    decreases n,
{
    if n > 0 {
        lemma_light_share_not_negative(scene, shadow, reach, skip, (n - 1) as nat);
    }
}

/// What a light shows of a surface is at least its ambient term, in every
/// color channel, if no color channel of the light or of the surface and
/// neither coefficient of the surface is negative.
pub proof fn lemma_term_at_least_ambient(ray: Ray, hit: Rayhit, light: Light, amount: Fixed)
    requires
        amount@ >= 0,
        not_negative(light.color),
        not_negative(hit.material.color),
        hit.material.diffuse@ >= 0,
        hit.material.specular@ >= 0,
    ensures
        not_negative(ambient_share(hit, light)),
        at_least(
            light_term(ray, hit, light, amount),
            (
                ambient_share(hit, light).r@,
                ambient_share(hit, light).g@,
                ambient_share(hit, light).b@,
            ),
        ),
{
    reveal(light_term);
    let to_light = shadow_ray(hit, light).direction;
    let half_angle = to_light.spec_sub(ray.direction).spec_normalized();
    let lit = hit.normal.spec_dot(to_light).spec_clamp_unit();
    let shine = hit.normal.spec_dot(half_angle).spec_clamp_unit();
    let power = shine.spec_powi(hit.material.specular_n);
    lemma_signed_power_not_negative(shine@, hit.material.specular_n as int);
    lemma_product_not_negative(lit@, amount@);
    lemma_product_not_negative(lit.spec_mul(amount)@, hit.material.diffuse@);
    lemma_product_not_negative(power@, amount@);
    lemma_product_not_negative(power.spec_mul(amount)@, hit.material.specular@);
    let f = lit.spec_mul(amount).spec_mul(hit.material.diffuse);
    let g = power.spec_mul(amount).spec_mul(hit.material.specular);
    let mixed = light.color.spec_modulate(hit.material.color);
    lemma_product_not_negative(light.color.r@, hit.material.color.r@);
    lemma_product_not_negative(light.color.g@, hit.material.color.g@);
    lemma_product_not_negative(light.color.b@, hit.material.color.b@);
    lemma_product_not_negative(mixed.r@, AMBIENT as int);
    lemma_product_not_negative(mixed.g@, AMBIENT as int);
    lemma_product_not_negative(mixed.b@, AMBIENT as int);
    lemma_product_not_negative(mixed.r@, f@);
    lemma_product_not_negative(mixed.g@, f@);
    lemma_product_not_negative(mixed.b@, f@);
    lemma_product_not_negative(light.color.r@, g@);
    lemma_product_not_negative(light.color.g@, g@);
    lemma_product_not_negative(light.color.b@, g@);
}

/// The weighted sum over lights of which none has a negative intensity is
/// at least the sum of the intensities times a bound that holds of what
/// each light shows.
pub proof fn lemma_weighted_sum_at_least(
    ray: Ray,
    hit: Rayhit,
    scene: Seq<Geometry>,
    sources: Seq<Light>,
    n: nat,
    low: (int, int, int),
)
    requires
        n <= sources.len(),
        forall|k: int|
            0 <= k < sources.len() ==> (#[trigger] sources[k]).intensity@ >= 0 && at_least(
                shadowed_term(ray, hit, scene, sources[k]),
                low,
            ),
    ensures
        weight_sum(sources, n) >= 0,
        lights_sum(ray, hit, scene, sources, n).0 >= low.0 * weight_sum(sources, n),
        lights_sum(ray, hit, scene, sources, n).1 >= low.1 * weight_sum(sources, n),
        lights_sum(ray, hit, scene, sources, n).2 >= low.2 * weight_sum(sources, n),
    decreases n,
{
    if n > 0 {
        lemma_weighted_sum_at_least(ray, hit, scene, sources, (n - 1) as nat, low);
        let light = sources[n - 1];
        let term = shadowed_term(ray, hit, scene, light);
        let w = light.intensity@;
        let before = weight_sum(sources, (n - 1) as nat);
        assert(term.r@ * w >= low.0 * w && term.g@ * w >= low.1 * w && term.b@ * w >= low.2 * w)
            by (nonlinear_arith)
            requires
                w >= 0,
                term.r@ >= low.0,
                term.g@ >= low.1,
                term.b@ >= low.2,
        ;
        assert(low.0 * (before + w) == low.0 * before + low.0 * w && low.1 * (before + w) == low.1
            * before + low.1 * w && low.2 * (before + w) == low.2 * before + low.2 * w)
            by (nonlinear_arith);
    } else {
        assert(low.0 * 0 == 0 && low.1 * 0 == 0 && low.2 * 0 == 0) by (nonlinear_arith);
    }
}

/// A byte grows with the channel that it stores.
pub proof fn lemma_byte_grows(a: int, b: int)
    requires
        a <= b,
    ensures
        raw_to_byte(a) <= raw_to_byte(b),
{
}

/// A lit surface is at least as bright as the ambient light makes it. Let
/// no light have a negative intensity or color, let the total be the exact
/// sum of the intensities and more than nothing, and let no color or
/// coefficient of the surface be negative. Then every color channel of the
/// direct lighting is at least any bound that the ambient terms of all the
/// lights reach, and so is the byte that a pixel stores of it. An opaque
/// surface that does not reflect shows just that lighting.
pub proof fn lemma_lit_surface_at_least_ambient(
    ray: Ray,
    hit: Rayhit,
    scene: Seq<Geometry>,
    sources: Seq<Light>,
    total: Fixed,
    budget: nat,
    low: (int, int, int),
)
    requires
        scene.len() <= usize::MAX,
        total@ > 0,
        total@ == weight_sum(sources, sources.len()),
        not_negative(hit.material.color),
        hit.material.diffuse@ >= 0,
        hit.material.specular@ >= 0,
        forall|k: int|
            0 <= k < sources.len() ==> (#[trigger] sources[k]).intensity@ >= 0 && not_negative(
                sources[k].color,
            ) && at_least(ambient_share(hit, sources[k]), low),
    ensures
        at_least(local_shade(ray, hit, scene, sources, total), low),
        raw_to_byte(local_shade(ray, hit, scene, sources, total).r@) >= raw_to_byte(low.0),
        raw_to_byte(local_shade(ray, hit, scene, sources, total).g@) >= raw_to_byte(low.1),
        raw_to_byte(local_shade(ray, hit, scene, sources, total).b@) >= raw_to_byte(low.2),
        hit.dist.spec_is_finite() && hit.material.color.a@ >= SCALE && hit.material.reflectivity@
            <= 0 ==> at_least(spec_shade(ray, hit, scene, sources, total, budget).0, low),
{
    assert forall|k: int| 0 <= k < sources.len() implies (#[trigger] sources[k]).intensity@ >= 0
        && at_least(shadowed_term(ray, hit, scene, sources[k]), low) by {
        let light = sources[k];
        lemma_light_share_not_negative(
            scene,
            shadow_ray(hit, light),
            light_distance(hit, light),
            hit.obj,
            scene.len(),
        );
        lemma_term_at_least_ambient(
            ray,
            hit,
            light,
            light_reaching(
                scene,
                shadow_ray(hit, light),
                light_distance(hit, light),
                hit.obj,
                scene.len(),
            ),
        );
    }
    lemma_weighted_sum_at_least(ray, hit, scene, sources, sources.len(), low);
    let sum = lights_sum(ray, hit, scene, sources, sources.len());
    let t = total@;
    lemma_floor_bracket(sum.0, t);
    lemma_floor_bracket(sum.1, t);
    lemma_floor_bracket(sum.2, t);
    assert(sum.0 / t >= low.0 && sum.1 / t >= low.1 && sum.2 / t >= low.2) by (nonlinear_arith)
        requires
            t > 0,
            sum.0 >= low.0 * t,
            sum.1 >= low.1 * t,
            sum.2 >= low.2 * t,
            t * (sum.0 / t) <= sum.0 < t * (sum.0 / t) + t,
            t * (sum.1 / t) <= sum.1 < t * (sum.1 / t) + t,
            t * (sum.2 / t) <= sum.2 < t * (sum.2 / t) + t,
    ;
    assert(sources.len() > 0);
    let first = sources[0];
    assert(at_least(ambient_share(hit, first), low));
    let local = local_shade(ray, hit, scene, sources, total);
    lemma_byte_grows(low.0, local.r@);
    lemma_byte_grows(low.1, local.g@);
    lemma_byte_grows(low.2, local.b@);
    if hit.dist.spec_is_finite() && hit.material.color.a@ >= SCALE && hit.material.reflectivity@
        <= 0 {
        lemma_opaque_matte_shows_direct_light(ray, hit, scene, sources, total, budget);
    }
}

/// The most rays that can be followed for one ray with `budget` bounces
/// left: one, and twice as many as with one bounce less.
pub open spec fn max_rays(budget: nat) -> nat
    decreases budget,
{
    if budget == 0 {
        1
    } else {
        1 + 2 * max_rays((budget - 1) as nat)
    }
}

/// Tracing ends: at least one ray and at most `max_rays(budget)` rays are
/// followed for a ray, whatever the scene.
pub proof fn lemma_ray_count_is_bounded(
    ray: Ray,
    scene: Seq<Geometry>,
    sources: Seq<Light>,
    total: Fixed,
    budget: nat,
    ignore: Option<usize>,
)
    ensures
        1 <= spec_trace(ray, scene, sources, total, budget, ignore).1 <= max_rays(budget),
    decreases budget, 1nat,
{
    match nearest_hit(scene, ray, ignore, scene.len()) {
        Some(hit) => lemma_shade_count_is_bounded(ray, hit, scene, sources, total, budget),
        None => {},
    }
}

/// At least one ray and at most `max_rays(budget)` rays are followed for a
/// hit.
pub proof fn lemma_shade_count_is_bounded(
    ray: Ray,
    hit: Rayhit,
    scene: Seq<Geometry>,
    sources: Seq<Light>,
    total: Fixed,
    budget: nat,
)
    ensures
        1 <= spec_shade(ray, hit, scene, sources, total, budget).1 <= max_rays(budget),
    decreases budget, 0nat,
{
    if hit.dist.spec_is_finite() && budget > 0 {
        lemma_ray_count_is_bounded(
            secondary_ray(
                hit,
                reflected(ray.direction, hit.normal),
            ),
            scene,
            sources,
            total,
            (budget - 1) as nat,
            Some(hit.obj),
        );
        lemma_ray_count_is_bounded(
            secondary_ray(hit, ray.direction),
            scene,
            sources,
            total,
            (budget - 1) as nat,
            Some(hit.obj),
        );
    }
}

/// The rays of the rows before `y` and of the first `x` pixels of row `y`
/// are those of the rows before `y` and those of the pixels of the row.
pub proof fn lemma_rays_within_a_row(
    view: Viewport,
    aa: Antialiasing,
    scene: Seq<Geometry>,
    sources: Seq<Light>,
    total: Fixed,
    budget: nat,
    y: u32,
    x: nat,
)
    ensures
        rays_upto(view, aa, scene, sources, total, budget, y as nat, x) == rays_upto(
            view,
            aa,
            scene,
            sources,
            total,
            budget,
            y as nat,
            0,
        ) + row_rays(view, aa, scene, sources, total, budget, y, x),
    decreases x,
{
    if x > 0 {
        lemma_rays_within_a_row(view, aa, scene, sources, total, budget, y, (x - 1) as nat);
    }
}

/// Rendering row by row follows as many rays as rendering the image does:
/// each row adds its own rays to those of the rows before it.
pub proof fn lemma_rays_by_rows(
    view: Viewport,
    aa: Antialiasing,
    scene: Seq<Geometry>,
    sources: Seq<Light>,
    total: Fixed,
    budget: nat,
    y: u32,
)
    ensures
        rays_upto(view, aa, scene, sources, total, budget, (y + 1) as nat, 0) == rays_upto(
            view,
            aa,
            scene,
            sources,
            total,
            budget,
            y as nat,
            0,
        ) + row_rays(view, aa, scene, sources, total, budget, y, view.width as nat),
{
    lemma_rays_within_a_row(view, aa, scene, sources, total, budget, y, view.width as nat);
}

/// With no distance between the eyes, both eyes are the same camera and see
/// the same color in every pixel.
pub proof fn lemma_eyes_coincide(
    cam: Camera,
    width: u32,
    height: u32,
    aa: Antialiasing,
    scene: Seq<Geometry>,
    sources: Seq<Light>,
    total: Fixed,
    budget: nat,
    x: u32,
    y: u32,
)
    ensures
        left_eye(cam, Fixed::of(0)) == right_eye(cam, Fixed::of(0)),
        Viewport::of_camera(left_eye(cam, Fixed::of(0)), width, height) == Viewport::of_camera(
            right_eye(cam, Fixed::of(0)),
            width,
            height,
        ),
        pixel_color(
            Viewport::of_camera(left_eye(cam, Fixed::of(0)), width, height),
            aa,
            scene,
            sources,
            total,
            budget,
            x,
            y,
        ) == pixel_color(
            Viewport::of_camera(right_eye(cam, Fixed::of(0)), width, height),
            aa,
            scene,
            sources,
            total,
            budget,
            x,
            y,
        ),
{
    let rv = cam.look.spec_unit_cross(cam.up);
    assert(Fixed::of(0).spec_div(Fixed::spec_from_int(2)) == Fixed::of(0));
    lemma_zero_vector(rv);
    assert(eye_shift(cam, Fixed::of(0)) == Vector3D::spec_zero());
    lemma_zero_vector(cam.position);
}

/// A stereo renderer whose eyes coincide holds, once rendered, the same
/// pixels in the images of both eyes.
pub proof fn lemma_coinciding_eyes_render_alike(
    stereo: Anaglyph,
    scene: Seq<Geometry>,
    sources: Seq<Light>,
    total: Fixed,
    budget: nat,
    i: int,
    j: int,
)
    requires
        stereo.wf(),
        stereo.left.view == stereo.right.view,
        stereo.left.aa == stereo.right.aa,
        in_bounds(stereo.img.spec_width(), stereo.img.spec_height(), i, j),
        stereo.left.pixel_done(scene, sources, total, budget, i, j),
        stereo.right.pixel_done(scene, sources, total, budget, i, j),
    ensures
        stereo.left.img.spec_pixel(i, j) == stereo.right.img.spec_pixel(i, j),
{
}

} // verus!
