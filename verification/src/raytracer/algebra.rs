//! Identities and inequalities of integer arithmetic that the laws of the
//! renderer rest on, each proved in small steps.

use vstd::arithmetic::div_mod::lemma_fundamental_div_mod;
use vstd::arithmetic::div_mod::lemma_fundamental_div_mod_converse;
use vstd::arithmetic::div_mod::lemma_mod_bound;
use vstd::prelude::*;

verus! {

/// The order of two factors does not matter.
pub(crate) proof fn lemma_swap(x: int, y: int)
    ensures
        x * y == y * x,
{
    assert(x * y == y * x) by (nonlinear_arith);
}

/// Three factors can be grouped either way.
pub(crate) proof fn lemma_regroup(x: int, y: int, z: int)
    ensures
        (x * y) * z == x * (y * z),
{
    assert((x * y) * z == x * (y * z)) by (nonlinear_arith);
}

/// The opposite of a product.
pub(crate) proof fn lemma_negated_product(x: int, y: int)
    ensures
        (-x) * y == -(x * y),
        x * (-y) == -(x * y),
{
    assert((-x) * y == -(x * y)) by (nonlinear_arith);
    assert(x * (-y) == -(x * y)) by (nonlinear_arith);
}

/// A product of three factors does not depend on their order.
pub(crate) proof fn lemma_product_order(x: int, y: int, z: int)
    ensures
        x * (y * z) == x * (z * y),
        x * (y * z) == y * (x * z),
        x * (y * z) == y * (z * x),
        x * (y * z) == z * (x * y),
        x * (y * z) == z * (y * x),
{
    assert(x * (y * z) == x * (z * y)) by (nonlinear_arith);
    assert(x * (y * z) == y * (x * z)) by (nonlinear_arith);
    assert(x * (y * z) == y * (z * x)) by (nonlinear_arith);
    assert(x * (y * z) == z * (x * y)) by (nonlinear_arith);
    assert(x * (y * z) == z * (y * x)) by (nonlinear_arith);
}

/// Products spread over a difference.
pub(crate) proof fn lemma_spread(x: int, y: int, p: int, r: int)
    ensures
        x * (y * (p - r)) == (x * y) * p - (x * y) * r,
{
    assert(x * (y * (p - r)) == (x * y) * p - (x * y) * r) by (nonlinear_arith);
}

/// A factor spreads over a difference of two products.
pub(crate) proof fn lemma_spread_three(x: int, p: int, q: int, r: int, s: int)
    ensures
        x * (p * q - r * s) == x * (p * q) - x * (r * s),
{
    assert(x * (p * q - r * s) == x * (p * q) - x * (r * s)) by (nonlinear_arith);
}

/// A product spreads over a sum of three.
pub(crate) proof fn lemma_spread_sum(x: int, t: int, u: int, v: int)
    ensures
        x * (t + u + v) == x * t + x * u + x * v,
        x * (-(t + u + v)) == -(x * t + x * u + x * v),
{
    assert(x * (t + u + v) == x * t + x * u + x * v) by (nonlinear_arith);
    assert(x * (-(t + u + v)) == -(x * t + x * u + x * v)) by (nonlinear_arith);
}

/// A sum of three times a factor.
pub(crate) proof fn lemma_sum_times(x: int, y: int, z: int, u: int)
    ensures
        (x + y + z) * u == x * u + y * u + z * u,
{
    assert((x + y + z) * u == x * u + y * u + z * u) by (nonlinear_arith);
}

/// A quotient rounded down, times the divisor, lies less than the divisor
/// below the dividend.
pub(crate) proof fn lemma_floor_bracket(x: int, d: int)
    requires
        d > 0,
    ensures
        d * (x / d) <= x < d * (x / d) + d,
{
    lemma_fundamental_div_mod(x, d);
    lemma_mod_bound(x, d);
}

/// Two fractions with positive denominators that are equal have numerators
/// of the same sign, lie on the same side of one, and round down to the
/// same integer.
pub(crate) proof fn lemma_equal_fractions(x: int, p: int, y: int, q: int)
    requires
        p > 0,
        q > 0,
        x * q == y * p,
    ensures
        x >= 0 <==> y >= 0,
        x <= p <==> y <= q,
        x / p == y / q,
{
    assert((x >= 0 <==> y >= 0) && (x <= p <==> y <= q)) by (nonlinear_arith)
        requires
            p > 0,
            q > 0,
            x * q == y * p,
    ;
    let n = x / p;
    let r = x % p;
    lemma_fundamental_div_mod(x, p);
    let rest = y - n * q;
    assert(rest * p == r * q) by (nonlinear_arith)
        requires
            x == p * n + r,
            x * q == y * p,
            rest == y - n * q,
    ;
    assert(0 <= rest < q) by (nonlinear_arith)
        requires
            rest * p == r * q,
            0 <= r < p,
            q > 0,
    ;
    lemma_fundamental_div_mod_converse(y, q, n, rest);
}

/// The square of a number that lies less than `e` below `c` or below `-c`
/// differs from the square of `c` by less than `e * (2 * c + e)`.
pub(crate) proof fn lemma_square_near(w: int, c: int, e: int)
    requires
        e > 0,
        c >= 0,
        (-c - e < w <= -c) || (c - e < w <= c),
    ensures
        w * w < c * c + e * (2 * c + e),
        w * w + e * (2 * c + e) >= c * c,
{
    assert(w * w < c * c + e * (2 * c + e) && w * w + e * (2 * c + e) >= c * c)
        by (nonlinear_arith)
        requires
            e > 0,
            c >= 0,
            (-c - e < w <= -c) || (c - e < w <= c),
    ;
}

/// Completing the square: `dd` times the quadratic is a square less the
/// scaled discriminant.
pub(crate) proof fn lemma_complete_square(dd: int, b: int, cc: int, t: int, k: int)
    ensures
        dd * (dd * (t * t) + b * (2 * k * t) + cc * (k * k)) == (dd * t + b * k) * (dd * t + b * k)
            - (k * k) * (b * b - dd * cc),
{
    let x = dd * t;
    let y = b * k;
    let tt = t * t;
    let lin = 2 * k * t;
    let kk = k * k;
    assert((x + y) * (x + y) == x * x + 2 * (x * y) + y * y) by (nonlinear_arith);
    assert(x * x == dd * (dd * tt)) by (nonlinear_arith)
        requires
            x == dd * t,
            tt == t * t,
    ;
    assert(2 * (x * y) == dd * (b * lin)) by (nonlinear_arith)
        requires
            x == dd * t,
            y == b * k,
            lin == 2 * k * t,
    ;
    assert(y * y == kk * (b * b)) by (nonlinear_arith)
        requires
            y == b * k,
            kk == k * k,
    ;
    assert(kk * (b * b - dd * cc) == kk * (b * b) - dd * (cc * kk)) by (nonlinear_arith);
    lemma_spread_sum(dd, dd * tt, b * lin, cc * kk);
}

/// The first row of the system, multiplied by its determinant, holds of the
/// three numerators.
pub(crate) proof fn lemma_cramer_first(
    a: int,
    b: int,
    c: int,
    d: int,
    e: int,
    f: int,
    g: int,
    h: int,
    i: int,
    j: int,
    k: int,
    l: int,
)
    ensures
        a * (j * (e * i - h * f) + k * (g * f - d * i) + l * (d * h - e * g)) + d * (i * (a * k - j * b) + h * (j * c - a * l) + g * (b * l - k * c)) + g * (-(f * (a * k - j * b) + e * (j * c - a * l) + d * (b * l - k * c))) == j * (a * (e * i - h * f) + b * (g * f - d * i) + c * (d * h - e * g)),
{
    let p_aj = a * j;
    lemma_swap(a, j);
    let p_ak = a * k;
    lemma_swap(a, k);
    let p_al = a * l;
    lemma_swap(a, l);
    let p_bj = b * j;
    lemma_swap(b, j);
    let p_bl = b * l;
    lemma_swap(b, l);
    let p_cj = c * j;
    lemma_swap(c, j);
    let p_ck = c * k;
    lemma_swap(c, k);
    let p_dg = d * g;
    lemma_swap(d, g);
    let p_dh = d * h;
    lemma_swap(d, h);
    let p_di = d * i;
    lemma_swap(d, i);
    let p_eg = e * g;
    lemma_swap(e, g);
    let p_ei = e * i;
    lemma_swap(e, i);
    let p_fg = f * g;
    lemma_swap(f, g);
    let p_fh = f * h;
    lemma_swap(f, h);
    let q_aj_ei = p_aj * p_ei;
    lemma_swap(p_aj, p_ei);
    let q_aj_fh = p_aj * p_fh;
    lemma_swap(p_aj, p_fh);
    let q_ak_di = p_ak * p_di;
    lemma_swap(p_ak, p_di);
    let q_ak_fg = p_ak * p_fg;
    lemma_swap(p_ak, p_fg);
    let q_al_dh = p_al * p_dh;
    lemma_swap(p_al, p_dh);
    let q_al_eg = p_al * p_eg;
    lemma_swap(p_al, p_eg);
    let q_bj_di = p_bj * p_di;
    lemma_swap(p_bj, p_di);
    let q_bj_fg = p_bj * p_fg;
    lemma_swap(p_bj, p_fg);
    let q_bl_dg = p_bl * p_dg;
    lemma_swap(p_bl, p_dg);
    let q_cj_dh = p_cj * p_dh;
    lemma_swap(p_cj, p_dh);
    let q_cj_eg = p_cj * p_eg;
    lemma_swap(p_cj, p_eg);
    let q_ck_dg = p_ck * p_dg;
    lemma_swap(p_ck, p_dg);
    lemma_spread(a, j, e * i, h * f);
    assert(a * (j * (e * i - h * f)) == q_aj_ei - q_aj_fh);
    lemma_spread(a, k, g * f, d * i);
    assert(a * (k * (g * f - d * i)) == q_ak_fg - q_ak_di);
    lemma_spread(a, l, d * h, e * g);
    assert(a * (l * (d * h - e * g)) == q_al_dh - q_al_eg);
    lemma_spread_sum(a, j * (e * i - h * f), k * (g * f - d * i), l * (d * h - e * g));
    lemma_spread(d, i, a * k, j * b);
    assert(d * (i * (a * k - j * b)) == q_ak_di - q_bj_di);
    lemma_spread(d, h, j * c, a * l);
    assert(d * (h * (j * c - a * l)) == q_cj_dh - q_al_dh);
    lemma_spread(d, g, b * l, k * c);
    assert(d * (g * (b * l - k * c)) == q_bl_dg - q_ck_dg);
    lemma_spread_sum(d, i * (a * k - j * b), h * (j * c - a * l), g * (b * l - k * c));
    lemma_spread(g, f, a * k, j * b);
    assert(g * (f * (a * k - j * b)) == q_ak_fg - q_bj_fg);
    lemma_spread(g, e, j * c, a * l);
    assert(g * (e * (j * c - a * l)) == q_cj_eg - q_al_eg);
    lemma_spread(g, d, b * l, k * c);
    assert(g * (d * (b * l - k * c)) == q_bl_dg - q_ck_dg);
    lemma_spread_sum(g, f * (a * k - j * b), e * (j * c - a * l), d * (b * l - k * c));
    lemma_spread(j, a, e * i, h * f);
    assert(j * (a * (e * i - h * f)) == q_aj_ei - q_aj_fh);
    lemma_spread(j, b, g * f, d * i);
    assert(j * (b * (g * f - d * i)) == q_bj_fg - q_bj_di);
    lemma_spread(j, c, d * h, e * g);
    assert(j * (c * (d * h - e * g)) == q_cj_dh - q_cj_eg);
    lemma_spread_sum(j, a * (e * i - h * f), b * (g * f - d * i), c * (d * h - e * g));
}

/// The second row of the system, multiplied by its determinant, holds of the
/// three numerators.
pub(crate) proof fn lemma_cramer_second(
    a: int,
    b: int,
    c: int,
    d: int,
    e: int,
    f: int,
    g: int,
    h: int,
    i: int,
    j: int,
    k: int,
    l: int,
)
    ensures
        b * (j * (e * i - h * f) + k * (g * f - d * i) + l * (d * h - e * g)) + e * (i * (a * k - j * b) + h * (j * c - a * l) + g * (b * l - k * c)) + h * (-(f * (a * k - j * b) + e * (j * c - a * l) + d * (b * l - k * c))) == k * (a * (e * i - h * f) + b * (g * f - d * i) + c * (d * h - e * g)),
{
    let p_ak = a * k;
    lemma_swap(a, k);
    let p_al = a * l;
    lemma_swap(a, l);
    let p_bj = b * j;
    lemma_swap(b, j);
    let p_bk = b * k;
    lemma_swap(b, k);
    let p_bl = b * l;
    lemma_swap(b, l);
    let p_cj = c * j;
    lemma_swap(c, j);
    let p_ck = c * k;
    lemma_swap(c, k);
    let p_dh = d * h;
    lemma_swap(d, h);
    let p_di = d * i;
    lemma_swap(d, i);
    let p_eg = e * g;
    lemma_swap(e, g);
    let p_eh = e * h;
    lemma_swap(e, h);
    let p_ei = e * i;
    lemma_swap(e, i);
    let p_fg = f * g;
    lemma_swap(f, g);
    let p_fh = f * h;
    lemma_swap(f, h);
    let q_ak_ei = p_ak * p_ei;
    lemma_swap(p_ak, p_ei);
    let q_ak_fh = p_ak * p_fh;
    lemma_swap(p_ak, p_fh);
    let q_al_eh = p_al * p_eh;
    lemma_swap(p_al, p_eh);
    let q_bj_ei = p_bj * p_ei;
    lemma_swap(p_bj, p_ei);
    let q_bj_fh = p_bj * p_fh;
    lemma_swap(p_bj, p_fh);
    let q_bk_di = p_bk * p_di;
    lemma_swap(p_bk, p_di);
    let q_bk_fg = p_bk * p_fg;
    lemma_swap(p_bk, p_fg);
    let q_bl_dh = p_bl * p_dh;
    lemma_swap(p_bl, p_dh);
    let q_bl_eg = p_bl * p_eg;
    lemma_swap(p_bl, p_eg);
    let q_cj_eh = p_cj * p_eh;
    lemma_swap(p_cj, p_eh);
    let q_ck_dh = p_ck * p_dh;
    lemma_swap(p_ck, p_dh);
    let q_ck_eg = p_ck * p_eg;
    lemma_swap(p_ck, p_eg);
    lemma_spread(b, j, e * i, h * f);
    assert(b * (j * (e * i - h * f)) == q_bj_ei - q_bj_fh);
    lemma_spread(b, k, g * f, d * i);
    assert(b * (k * (g * f - d * i)) == q_bk_fg - q_bk_di);
    lemma_spread(b, l, d * h, e * g);
    assert(b * (l * (d * h - e * g)) == q_bl_dh - q_bl_eg);
    lemma_spread_sum(b, j * (e * i - h * f), k * (g * f - d * i), l * (d * h - e * g));
    lemma_spread(e, i, a * k, j * b);
    assert(e * (i * (a * k - j * b)) == q_ak_ei - q_bj_ei);
    lemma_spread(e, h, j * c, a * l);
    assert(e * (h * (j * c - a * l)) == q_cj_eh - q_al_eh);
    lemma_spread(e, g, b * l, k * c);
    assert(e * (g * (b * l - k * c)) == q_bl_eg - q_ck_eg);
    lemma_spread_sum(e, i * (a * k - j * b), h * (j * c - a * l), g * (b * l - k * c));
    lemma_spread(h, f, a * k, j * b);
    assert(h * (f * (a * k - j * b)) == q_ak_fh - q_bj_fh);
    lemma_spread(h, e, j * c, a * l);
    assert(h * (e * (j * c - a * l)) == q_cj_eh - q_al_eh);
    lemma_spread(h, d, b * l, k * c);
    assert(h * (d * (b * l - k * c)) == q_bl_dh - q_ck_dh);
    lemma_spread_sum(h, f * (a * k - j * b), e * (j * c - a * l), d * (b * l - k * c));
    lemma_spread(k, a, e * i, h * f);
    assert(k * (a * (e * i - h * f)) == q_ak_ei - q_ak_fh);
    lemma_spread(k, b, g * f, d * i);
    assert(k * (b * (g * f - d * i)) == q_bk_fg - q_bk_di);
    lemma_spread(k, c, d * h, e * g);
    assert(k * (c * (d * h - e * g)) == q_ck_dh - q_ck_eg);
    lemma_spread_sum(k, a * (e * i - h * f), b * (g * f - d * i), c * (d * h - e * g));
}

/// The third row of the system, multiplied by its determinant, holds of the
/// three numerators.
pub(crate) proof fn lemma_cramer_third(
    a: int,
    b: int,
    c: int,
    d: int,
    e: int,
    f: int,
    g: int,
    h: int,
    i: int,
    j: int,
    k: int,
    l: int,
)
    ensures
        c * (j * (e * i - h * f) + k * (g * f - d * i) + l * (d * h - e * g)) + f * (i * (a * k - j * b) + h * (j * c - a * l) + g * (b * l - k * c)) + i * (-(f * (a * k - j * b) + e * (j * c - a * l) + d * (b * l - k * c))) == l * (a * (e * i - h * f) + b * (g * f - d * i) + c * (d * h - e * g)),
{
    let p_ak = a * k;
    lemma_swap(a, k);
    let p_al = a * l;
    lemma_swap(a, l);
    let p_bj = b * j;
    lemma_swap(b, j);
    let p_bl = b * l;
    lemma_swap(b, l);
    let p_cj = c * j;
    lemma_swap(c, j);
    let p_ck = c * k;
    lemma_swap(c, k);
    let p_cl = c * l;
    lemma_swap(c, l);
    let p_dh = d * h;
    lemma_swap(d, h);
    let p_di = d * i;
    lemma_swap(d, i);
    let p_eg = e * g;
    lemma_swap(e, g);
    let p_ei = e * i;
    lemma_swap(e, i);
    let p_fg = f * g;
    lemma_swap(f, g);
    let p_fh = f * h;
    lemma_swap(f, h);
    let p_fi = f * i;
    lemma_swap(f, i);
    let q_ak_fi = p_ak * p_fi;
    lemma_swap(p_ak, p_fi);
    let q_al_ei = p_al * p_ei;
    lemma_swap(p_al, p_ei);
    let q_al_fh = p_al * p_fh;
    lemma_swap(p_al, p_fh);
    let q_bj_fi = p_bj * p_fi;
    lemma_swap(p_bj, p_fi);
    let q_bl_di = p_bl * p_di;
    lemma_swap(p_bl, p_di);
    let q_bl_fg = p_bl * p_fg;
    lemma_swap(p_bl, p_fg);
    let q_cj_ei = p_cj * p_ei;
    lemma_swap(p_cj, p_ei);
    let q_cj_fh = p_cj * p_fh;
    lemma_swap(p_cj, p_fh);
    let q_ck_di = p_ck * p_di;
    lemma_swap(p_ck, p_di);
    let q_ck_fg = p_ck * p_fg;
    lemma_swap(p_ck, p_fg);
    let q_cl_dh = p_cl * p_dh;
    lemma_swap(p_cl, p_dh);
    let q_cl_eg = p_cl * p_eg;
    lemma_swap(p_cl, p_eg);
    lemma_spread(c, j, e * i, h * f);
    assert(c * (j * (e * i - h * f)) == q_cj_ei - q_cj_fh);
    lemma_spread(c, k, g * f, d * i);
    assert(c * (k * (g * f - d * i)) == q_ck_fg - q_ck_di);
    lemma_spread(c, l, d * h, e * g);
    assert(c * (l * (d * h - e * g)) == q_cl_dh - q_cl_eg);
    lemma_spread_sum(c, j * (e * i - h * f), k * (g * f - d * i), l * (d * h - e * g));
    lemma_spread(f, i, a * k, j * b);
    assert(f * (i * (a * k - j * b)) == q_ak_fi - q_bj_fi);
    lemma_spread(f, h, j * c, a * l);
    assert(f * (h * (j * c - a * l)) == q_cj_fh - q_al_fh);
    lemma_spread(f, g, b * l, k * c);
    assert(f * (g * (b * l - k * c)) == q_bl_fg - q_ck_fg);
    lemma_spread_sum(f, i * (a * k - j * b), h * (j * c - a * l), g * (b * l - k * c));
    lemma_spread(i, f, a * k, j * b);
    assert(i * (f * (a * k - j * b)) == q_ak_fi - q_bj_fi);
    lemma_spread(i, e, j * c, a * l);
    assert(i * (e * (j * c - a * l)) == q_cj_ei - q_al_ei);
    lemma_spread(i, d, b * l, k * c);
    assert(i * (d * (b * l - k * c)) == q_bl_di - q_ck_di);
    lemma_spread_sum(i, f * (a * k - j * b), e * (j * c - a * l), d * (b * l - k * c));
    lemma_spread(l, a, e * i, h * f);
    assert(l * (a * (e * i - h * f)) == q_al_ei - q_al_fh);
    lemma_spread(l, b, g * f, d * i);
    assert(l * (b * (g * f - d * i)) == q_bl_fg - q_bl_di);
    lemma_spread(l, c, d * h, e * g);
    assert(l * (c * (d * h - e * g)) == q_cl_dh - q_cl_eg);
    lemma_spread_sum(l, a * (e * i - h * f), b * (g * f - d * i), c * (d * h - e * g));
}

/// The numerators of `gamma` and `t` are linear in the vector `(j, k, l)`
/// from the origin of the ray to the first corner, as the numerator of
/// `beta` is by its definition; and the determinant can be expanded along
/// any of its three columns.
pub(crate) proof fn lemma_numerators_rearranged(
    a: int,
    b: int,
    c: int,
    d: int,
    e: int,
    f: int,
    g: int,
    h: int,
    i: int,
    j: int,
    k: int,
    l: int,
)
    ensures
        i * (a * k - j * b) + h * (j * c - a * l) + g * (b * l - k * c) == j * (h * c - i * b) + k * (i * a - g * c) + l * (g * b - h * a),
        -(f * (a * k - j * b) + e * (j * c - a * l) + d * (b * l - k * c)) == j * (b * f - e * c) + k * (c * d - f * a) + l * (a * e - d * b),
        a * (e * i - h * f) + b * (g * f - d * i) + c * (d * h - e * g) == d * (h * c - i * b) + e * (i * a - g * c) + f * (g * b - h * a),
        a * (e * i - h * f) + b * (g * f - d * i) + c * (d * h - e * g) == g * (b * f - e * c) + h * (c * d - f * a) + i * (a * e - d * b),
        d * (e * i - h * f) + e * (g * f - d * i) + f * (d * h - e * g) == 0,
        g * (e * i - h * f) + h * (g * f - d * i) + i * (d * h - e * g) == 0,
        a * (h * c - i * b) + b * (i * a - g * c) + c * (g * b - h * a) == 0,
        g * (h * c - i * b) + h * (i * a - g * c) + i * (g * b - h * a) == 0,
        a * (b * f - e * c) + b * (c * d - f * a) + c * (a * e - d * b) == 0,
        d * (b * f - e * c) + e * (c * d - f * a) + f * (a * e - d * b) == 0,
{
    lemma_spread_three(i, a, k, j, b);
    lemma_product_order(i, a, k);
    lemma_product_order(i, j, b);
    lemma_spread_three(h, j, c, a, l);
    lemma_product_order(h, j, c);
    lemma_product_order(h, a, l);
    lemma_spread_three(g, b, l, k, c);
    lemma_product_order(g, b, l);
    lemma_product_order(g, k, c);
    lemma_spread_three(f, a, k, j, b);
    lemma_product_order(f, a, k);
    lemma_product_order(f, j, b);
    lemma_spread_three(e, j, c, a, l);
    lemma_product_order(e, j, c);
    lemma_product_order(e, a, l);
    lemma_spread_three(d, b, l, k, c);
    lemma_product_order(d, b, l);
    lemma_product_order(d, k, c);
    lemma_spread_three(a, e, i, h, f);
    lemma_product_order(a, e, i);
    lemma_product_order(a, h, f);
    lemma_spread_three(b, g, f, d, i);
    lemma_product_order(b, g, f);
    lemma_product_order(b, d, i);
    lemma_spread_three(c, d, h, e, g);
    lemma_product_order(c, d, h);
    lemma_product_order(c, e, g);
    lemma_spread_three(j, h, c, i, b);
    lemma_product_order(j, h, c);
    lemma_product_order(j, i, b);
    lemma_spread_three(k, i, a, g, c);
    lemma_product_order(k, i, a);
    lemma_product_order(k, g, c);
    lemma_spread_three(l, g, b, h, a);
    lemma_product_order(l, g, b);
    lemma_product_order(l, h, a);
    lemma_spread_three(j, b, f, e, c);
    lemma_product_order(j, b, f);
    lemma_product_order(j, e, c);
    lemma_spread_three(k, c, d, f, a);
    lemma_product_order(k, c, d);
    lemma_product_order(k, f, a);
    lemma_spread_three(l, a, e, d, b);
    lemma_product_order(l, a, e);
    lemma_product_order(l, d, b);
    lemma_spread_three(d, h, c, i, b);
    lemma_product_order(d, h, c);
    lemma_product_order(d, i, b);
    lemma_spread_three(e, i, a, g, c);
    lemma_product_order(e, i, a);
    lemma_product_order(e, g, c);
    lemma_spread_three(f, g, b, h, a);
    lemma_product_order(f, g, b);
    lemma_product_order(f, h, a);
    lemma_spread_three(g, b, f, e, c);
    lemma_product_order(g, b, f);
    lemma_product_order(g, e, c);
    lemma_spread_three(h, c, d, f, a);
    lemma_product_order(h, c, d);
    lemma_product_order(h, f, a);
    lemma_spread_three(i, a, e, d, b);
    lemma_product_order(i, a, e);
    lemma_product_order(i, d, b);
    lemma_spread_three(d, e, i, h, f);
    lemma_product_order(d, e, i);
    lemma_product_order(d, h, f);
    lemma_spread_three(e, g, f, d, i);
    lemma_product_order(e, g, f);
    lemma_product_order(e, d, i);
    lemma_spread_three(f, d, h, e, g);
    lemma_product_order(f, d, h);
    lemma_product_order(f, e, g);
    lemma_spread_three(g, e, i, h, f);
    lemma_product_order(g, e, i);
    lemma_product_order(g, h, f);
    lemma_spread_three(h, g, f, d, i);
    lemma_product_order(h, g, f);
    lemma_product_order(h, d, i);
    lemma_spread_three(i, d, h, e, g);
    lemma_product_order(i, d, h);
    lemma_product_order(i, e, g);
    lemma_spread_three(a, h, c, i, b);
    lemma_product_order(a, h, c);
    lemma_product_order(a, i, b);
    lemma_spread_three(b, i, a, g, c);
    lemma_product_order(b, i, a);
    lemma_product_order(b, g, c);
    lemma_spread_three(c, g, b, h, a);
    lemma_product_order(c, g, b);
    lemma_product_order(c, h, a);
    lemma_spread_three(g, h, c, i, b);
    lemma_product_order(g, h, c);
    lemma_product_order(g, i, b);
    lemma_spread_three(h, i, a, g, c);
    lemma_product_order(h, i, a);
    lemma_product_order(h, g, c);
    lemma_spread_three(i, g, b, h, a);
    lemma_product_order(i, g, b);
    lemma_product_order(i, h, a);
    lemma_spread_three(a, b, f, e, c);
    lemma_product_order(a, b, f);
    lemma_product_order(a, e, c);
    lemma_spread_three(b, c, d, f, a);
    lemma_product_order(b, c, d);
    lemma_product_order(b, f, a);
    lemma_spread_three(c, a, e, d, b);
    lemma_product_order(c, a, e);
    lemma_product_order(c, d, b);
    lemma_spread_three(d, b, f, e, c);
    lemma_product_order(d, b, f);
    lemma_product_order(d, e, c);
    lemma_spread_three(e, c, d, f, a);
    lemma_product_order(e, c, d);
    lemma_product_order(e, f, a);
    lemma_spread_three(f, a, e, d, b);
    lemma_product_order(f, a, e);
    lemma_product_order(f, d, b);
}

/// One row of the system, `ca * nb + cd * ng + cg * nt == cj * q`, times a
/// factor `u`.
pub(crate) proof fn lemma_row_times(
    q: int,
    nb: int,
    ng: int,
    nt: int,
    ca: int,
    cd: int,
    cg: int,
    cj: int,
    u: int,
)
    requires
        ca * nb + cd * ng + cg * nt == cj * q,
    ensures
        q * (cj * u) == nb * (ca * u) + ng * (cd * u) + nt * (cg * u),
{
    lemma_product_order(q, cj, u);
    lemma_regroup(cj, q, u);
    assert(q * (cj * u) == (cj * q) * u);
    assert((cj * q) * u == (ca * nb + cd * ng + cg * nt) * u);
    lemma_sum_times(ca * nb, cd * ng, cg * nt, u);
    lemma_regroup(ca, nb, u);
    lemma_product_order(ca, nb, u);
    lemma_regroup(cd, ng, u);
    lemma_product_order(cd, ng, u);
    lemma_regroup(cg, nt, u);
    lemma_product_order(cg, nt, u);
}

/// A solution `(nb, ng, nt) / q` of the system, put into a form that is
/// linear in the right-hand side `(j, k, l)`, turns it into the same form
/// of the three columns.
pub(crate) proof fn lemma_substitute_rows(
    q: int,
    nb: int,
    ng: int,
    nt: int,
    a: int,
    b: int,
    c: int,
    d: int,
    e: int,
    f: int,
    g: int,
    h: int,
    i: int,
    j: int,
    k: int,
    l: int,
    u1: int,
    u2: int,
    u3: int,
)
    requires
        a * nb + d * ng + g * nt == j * q,
        b * nb + e * ng + h * nt == k * q,
        c * nb + f * ng + i * nt == l * q,
    ensures
        q * (j * u1 + k * u2 + l * u3) == nb * (a * u1 + b * u2 + c * u3) + ng * (d * u1 + e * u2
            + f * u3) + nt * (g * u1 + h * u2 + i * u3),
{
    lemma_spread_sum(q, j * u1, k * u2, l * u3);
    lemma_row_times(q, nb, ng, nt, a, d, g, j, u1);
    lemma_row_times(q, nb, ng, nt, b, e, h, k, u2);
    lemma_row_times(q, nb, ng, nt, c, f, i, l, u3);
    lemma_spread_sum(nb, a * u1, b * u2, c * u3);
    lemma_spread_sum(ng, d * u1, e * u2, f * u3);
    lemma_spread_sum(nt, g * u1, h * u2, i * u3);
}

} // verus!
