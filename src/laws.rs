use vstd::prelude::*;
use crate::config::PhysicsConfig;
use crate::fixed::{
    abs, aquot, fx_mul, lemma_isqrt_root, lemma_isqrt_zero, lemma_square_lt, toward_zero, tquot,
    UNIT,
};
use vstd::arithmetic::div_mod::{lemma_fundamental_div_mod, lemma_mod_bound};
use crate::game_field::wrapped;
use crate::gravity_field::GravityField;
use crate::physics::{friction_against, net_acceleration, step_pixel, ticked, ticked_n};
use crate::pixel::Pixel;
use crate::vector::Vector;

verus! {

/// Normalizing the zero vector leaves it the zero vector.
pub proof fn lemma_normalize_zero()
    ensures
        (Vector { x: 0, y: 0 }).normalized() == (Vector { x: 0, y: 0 }),
{
}

/// Distance is symmetric, and a vector is at distance zero from itself.
pub proof fn lemma_distance_symmetric(a: Vector, b: Vector)
    ensures
        a.dist(b) == b.dist(a),
        a.dist(a) == 0,
{
    assert(a.sq_dist(b) == b.sq_dist(a)) by (nonlinear_arith);
    assert(a.sq_dist(a) == 0);
    lemma_isqrt_zero();
}

/// For two positions, the length of their difference is their distance:
/// the difference of two positions never saturates.
pub proof fn lemma_difference_length(a: Vector, b: Vector)
    requires
        a.in_play(),
        b.in_play(),
    ensures
        b.difference(a).length() == a.dist(b),
{
    assert(b.difference(a).x == b.x - a.x);
    assert(b.difference(a).y == b.y - a.y);
    assert(b.difference(a).sq_len() == a.sq_dist(b));
}

/// Clamping to `[-l, l]` leaves every component in that range, and leaves a
/// vector already in range as it is.
pub proof fn lemma_clamp_within(v: Vector, l: i64)
    requires
        l >= 0,
    ensures
        -l <= v.clamped(l as int).x <= l,
        -l <= v.clamped(l as int).y <= l,
        (-l <= v.x <= l && -l <= v.y <= l) ==> v.clamped(l as int) == v,
{
}

/// A point at distance exactly `aoe` from a field is covered by it; a point
/// any farther is not.
pub proof fn lemma_aoe_boundary(f: GravityField, p: Vector)
    requires
        f.aoe >= 0,
    ensures
        f.position.sq_dist(p) == f.aoe * f.aoe ==> f.covers(p),
        f.position.sq_dist(p) > f.aoe * f.aoe ==> !f.covers(p),
{
}

/// With no fields, a pixel at rest stays where it is.
pub proof fn lemma_rest_without_fields(p: Pixel, phy: PhysicsConfig)
    requires
        p.wf(),
        p.velocity == (Vector { x: 0, y: 0 }),
        phy.max_velocity >= 0,
    ensures
        step_pixel(p, Seq::empty(), phy) == p,
{
    let zero = Vector { x: 0, y: 0 };
    assert(net_acceleration(p.position, Seq::empty()) == zero);
    assert(zero.sq_len() == 0);
    assert(zero.normalized() == zero);
    assert(tquot(0, UNIT as int) == 0);
    assert(fx_mul(0, -UNIT as int) == 0);
    assert(fx_mul(0, phy.friction as int) == 0);
    assert(friction_against(zero, phy.friction) == zero);
}

/// With no fields, pixels at rest stay where they are for any number of
/// integration steps.
pub proof fn lemma_rest_forever(pixels: Seq<Pixel>, phy: PhysicsConfig, n: nat)
    requires
        phy.max_velocity >= 0,
        forall|k: int| 0 <= k < pixels.len() ==> #[trigger] pixels[k].wf(),
        forall|k: int| 0 <= k < pixels.len() ==> #[trigger] pixels[k].velocity == (Vector { x: 0, y: 0 }),
    ensures
        ticked_n(pixels, Seq::empty(), phy, n) == pixels,
    decreases n,
{
    if n > 0 {
        lemma_rest_forever(pixels, phy, (n - 1) as nat);
        assert forall|k: int| 0 <= k < pixels.len() implies #[trigger] ticked(pixels, Seq::empty(), phy)[k] == pixels[k] by {
            lemma_rest_without_fields(pixels[k], phy);
        }
        assert(ticked(pixels, Seq::empty(), phy) =~= pixels);
    }
}

/// After one or more integration steps, every velocity component lies
/// within `[-max_velocity, max_velocity]`.
pub proof fn lemma_velocity_bounded(
    pixels: Seq<Pixel>,
    fields: Seq<GravityField>,
    phy: PhysicsConfig,
    n: nat,
)
    requires
        phy.max_velocity >= 0,
        n >= 1,
    ensures
        forall|k: int|
            0 <= k < pixels.len() ==> -phy.max_velocity <= #[trigger] ticked_n(pixels, fields, phy, n)[k].velocity.x
                <= phy.max_velocity && -phy.max_velocity <= ticked_n(pixels, fields, phy, n)[k].velocity.y
                <= phy.max_velocity,
    decreases n,
{
    if n > 1 {
        lemma_velocity_bounded(pixels, fields, phy, (n - 1) as nat);
    }
    assert(ticked_n(pixels, fields, phy, (n - 1) as nat).len() == pixels.len()) by {
        lemma_ticked_n_len(pixels, fields, phy, (n - 1) as nat);
    }
}

proof fn lemma_ticked_n_len(pixels: Seq<Pixel>, fields: Seq<GravityField>, phy: PhysicsConfig, n: nat)
    ensures
        ticked_n(pixels, fields, phy, n).len() == pixels.len(),
    decreases n,
{
    if n > 0 {
        lemma_ticked_n_len(pixels, fields, phy, (n - 1) as nat);
    }
}

/// A pixel past the right or bottom edge wraps to zero on that axis; one
/// before the left or top edge wraps to the width or height.
pub proof fn lemma_wrap(p: Pixel, w: i64, h: i64)
    requires
        0 <= w,
        0 <= h,
    ensures
        p.position.x > w ==> wrapped(p, w as int, h as int).position.x == 0,
        p.position.x < 0 ==> wrapped(p, w as int, h as int).position.x == w,
        p.position.y > h ==> wrapped(p, w as int, h as int).position.y == 0,
        p.position.y < 0 ==> wrapped(p, w as int, h as int).position.y == h,
        0 <= p.position.x <= w && 0 <= p.position.y <= h ==> wrapped(p, w as int, h as int) == p,
{
}

/// Normalizing a non-zero vector gives a vector of length `UNIT` up to
/// rounding: its length is at least `UNIT`, and moving each component one
/// sub-unit toward zero brings the length to at most `UNIT`. Each non-zero
/// component keeps its sign and stays non-zero; a zero component stays zero.
pub proof fn lemma_normalized_unit(v: Vector)
    requires
        v.wf(),
        v.sq_len() > 0,
    ensures
        v.normalized().sq_len() >= UNIT * UNIT,
        toward_zero(v.normalized().x as int) * toward_zero(v.normalized().x as int) + toward_zero(
            v.normalized().y as int,
        ) * toward_zero(v.normalized().y as int) < (UNIT + 1) * (UNIT + 1),
        v.x != 0 ==> v.normalized().x * v.x > 0,
        v.y != 0 ==> v.normalized().y * v.y > 0,
        v.x == 0 ==> v.normalized().x == 0,
        v.y == 0 ==> v.normalized().y == 0,
{
    let s: int = UNIT as int;
    let t: int = s * s;
    assert(t == 0x10_0000);
    let x = v.x as int;
    let y = v.y as int;
    let a = abs(x);
    let b = abs(y);
    let q = v.sq_len();
    assert(q == a * a + b * b) by (nonlinear_arith)
        requires
            q == x * x + y * y,
            a == abs(x),
            b == abs(y),
    ;
    let m = v.fine_length();
    assert(q * t >= 0);
    lemma_isqrt_root(q * t);
    assert(m * m <= q * t && q * t < (m + 1) * (m + 1));
    assert(m >= s) by {
        assert(q * t >= t) by (nonlinear_arith)
            requires
                q >= 1,
                t > 0,
        ;
        lemma_square_lt(s, m + 1);
    }
    lemma_component_quotient(a, s, t, q, m);
    assert(b * b + a * a == q);
    lemma_component_quotient(b, s, t, q, m);
    let p = (a * t + m - 1) / m;
    let r = (b * t + m - 1) / m;
    let dp = toward_zero(p);
    let dr = toward_zero(r);
    assert(aquot(x * t, m) == if x < 0 { -p } else { p }) by {
        assert(abs(x * t) == a * t) by (nonlinear_arith)
            requires
                a == abs(x),
                t > 0,
        ;
        assert(x < 0 <==> x * t < 0) by (nonlinear_arith)
            requires
                t > 0,
        ;
    }
    assert(aquot(y * t, m) == if y < 0 { -r } else { r }) by {
        assert(abs(y * t) == b * t) by (nonlinear_arith)
            requires
                b == abs(y),
                t > 0,
        ;
        assert(y < 0 <==> y * t < 0) by (nonlinear_arith)
            requires
                t > 0,
        ;
    }
    let n = v.normalized();
    assert(abs(n.x as int) == p && abs(n.y as int) == r);
    assert(toward_zero(n.x as int) == dp || toward_zero(n.x as int) == -dp);
    assert(toward_zero(n.y as int) == dr || toward_zero(n.y as int) == -dr);
    assert(toward_zero(n.x as int) * toward_zero(n.x as int) == dp * dp) by (nonlinear_arith)
        requires
            toward_zero(n.x as int) == dp || toward_zero(n.x as int) == -dp,
    ;
    assert(toward_zero(n.y as int) * toward_zero(n.y as int) == dr * dr) by (nonlinear_arith)
        requires
            toward_zero(n.y as int) == dr || toward_zero(n.y as int) == -dr,
    ;
    assert(x != 0 ==> n.x * v.x > 0) by (nonlinear_arith)
        requires
            n.x == (if x < 0 { -p } else { p }),
            x == v.x,
            x != 0 ==> p > 0,
    ;
    assert(y != 0 ==> n.y * v.y > 0) by (nonlinear_arith)
        requires
            n.y == (if y < 0 { -r } else { r }),
            y == v.y,
            y != 0 ==> r > 0,
    ;
    assert(n.sq_len() == p * p + r * r) by (nonlinear_arith)
        requires
            abs(n.x as int) == p,
            abs(n.y as int) == r,
    ;
    // Lower bound: p * m >= a * t and r * m >= b * t.
    assert(p * p + r * r >= t) by {
        assert((a * t) * (a * t) <= (p * m) * (p * m)) by (nonlinear_arith)
            requires
                0 <= a * t <= p * m,
        ;
        assert((b * t) * (b * t) <= (r * m) * (r * m)) by (nonlinear_arith)
            requires
                0 <= b * t <= r * m,
        ;
        assert(q * t * t == (a * t) * (a * t) + (b * t) * (b * t)) by (nonlinear_arith)
            requires
                q == a * a + b * b,
        ;
        assert((p * m) * (p * m) + (r * m) * (r * m) == (p * p + r * r) * (m * m))
            by (nonlinear_arith);
        assert(m * m * t <= q * t * t) by (nonlinear_arith)
            requires
                m * m <= q * t,
                t > 0,
        ;
        assert(p * p + r * r >= t) by (nonlinear_arith)
            requires
                m * m * t <= (p * p + r * r) * (m * m),
                m > 0,
        ;
    }
    // Upper bound: dp * m <= a * t and dr * m <= b * t.
    assert(dp * dp + dr * dr < (s + 1) * (s + 1)) by {
        assert((dp * m) * (dp * m) <= (a * t) * (a * t)) by (nonlinear_arith)
            requires
                0 <= dp * m <= a * t,
        ;
        assert((dr * m) * (dr * m) <= (b * t) * (b * t)) by (nonlinear_arith)
            requires
                0 <= dr * m <= b * t,
        ;
        assert(q * t * t == (a * t) * (a * t) + (b * t) * (b * t)) by (nonlinear_arith)
            requires
                q == a * a + b * b,
        ;
        assert((dp * m) * (dp * m) + (dr * m) * (dr * m) == (dp * dp + dr * dr) * (m * m))
            by (nonlinear_arith);
        assert(q * t * t < (m + 1) * (m + 1) * t) by (nonlinear_arith)
            requires
                q * t < (m + 1) * (m + 1),
                t > 0,
        ;
        if dp * dp + dr * dr >= (s + 1) * (s + 1) {
            assert((s + 1) * (s + 1) * (m * m) <= (dp * dp + dr * dr) * (m * m)) by (nonlinear_arith)
                requires
                    dp * dp + dr * dr >= (s + 1) * (s + 1),
            ;
            assert(((s + 1) * m) * ((s + 1) * m) < ((m + 1) * s) * ((m + 1) * s)) by (nonlinear_arith)
                requires
                    (s + 1) * (s + 1) * (m * m) < (m + 1) * (m + 1) * t,
                    t == s * s,
            ;
            lemma_square_lt((s + 1) * m, (m + 1) * s);
            assert(false) by (nonlinear_arith)
                requires
                    (s + 1) * m < (m + 1) * s,
                    m >= s,
            ;
        }
    }
}

/// Bounds on one component of a normalized vector: with `m` the fine length,
/// the component's size `p` is the quotient `a * t / m` rounded up, lies in
/// `[0, s]`, is positive exactly when `a` is, and `p` moved one step toward
/// zero, times `m`, is at most `a * t`.
#[verifier::rlimit(30)]
proof fn lemma_component_quotient(a: int, s: int, t: int, q: int, m: int)
    requires
        a >= 0,
        s > 0,
        t == s * s,
        q >= a * a,
        m * m <= q * t,
        q * t < (m + 1) * (m + 1),
        m >= s,
    ensures
        0 <= (a * t + m - 1) / m <= s,
        a > 0 <==> (a * t + m - 1) / m > 0,
        a * t <= ((a * t + m - 1) / m) * m,
        0 <= toward_zero((a * t + m - 1) / m) * m <= a * t,
{
    let p = (a * t + m - 1) / m;
    assert(t > 0) by (nonlinear_arith)
        requires
            t == s * s,
            s > 0,
    ;
    assert(a * s <= m) by {
        assert((a * s) * (a * s) <= q * t) by (nonlinear_arith)
            requires
                q >= a * a,
                t == s * s,
        ;
        lemma_square_lt(a * s, m + 1);
    }
    assert(a * t <= m * s) by (nonlinear_arith)
        requires
            a * s <= m,
            t == s * s,
            s > 0,
    ;
    assert(a * t >= 0) by (nonlinear_arith)
        requires
            a >= 0,
            t > 0,
    ;
    lemma_fundamental_div_mod(a * t + m - 1, m);
    lemma_mod_bound(a * t + m - 1, m);
    let rem = (a * t + m - 1) % m;
    assert(m * p + rem == a * t + m - 1);
    assert(a * t <= p * m) by (nonlinear_arith)
        requires
            m * p + rem == a * t + m - 1,
            0 <= rem < m,
    ;
    assert(p * m <= a * t + m - 1) by (nonlinear_arith)
        requires
            m * p + rem == a * t + m - 1,
            0 <= rem,
    ;
    assert(p <= s) by (nonlinear_arith)
        requires
            p * m <= a * t + m - 1,
            a * t <= m * s,
            m > 0,
    ;
    assert(p >= 0) by (nonlinear_arith)
        requires
            p * m >= a * t,
            a * t >= 0,
            p * m <= a * t + m - 1,
            m > 0,
    ;
    if a > 0 {
        assert(a * t > 0) by (nonlinear_arith)
            requires
                a > 0,
                t > 0,
        ;
        assert(p > 0) by (nonlinear_arith)
            requires
                p * m >= a * t,
                a * t > 0,
                m > 0,
        ;
        assert(toward_zero(p) * m <= a * t) by (nonlinear_arith)
            requires
                p * m <= a * t + m - 1,
                toward_zero(p) == p - 1,
        ;
    } else {
        assert(a * t == 0);
        assert(p == 0) by (nonlinear_arith)
            requires
                p * m <= m - 1,
                p >= 0,
                m > 0,
        ;
        assert(toward_zero(p) * m <= a * t) by (nonlinear_arith)
            requires
                toward_zero(p) == 0,
                a * t == 0,
        ;
    }
    assert(toward_zero(p) * m >= 0) by (nonlinear_arith)
        requires
            toward_zero(p) >= 0,
            m > 0,
    ;
    assert(toward_zero(p) * m <= a * t);
    assert(0 <= p <= s);
    assert(a > 0 <==> p > 0);
    assert(a * t <= p * m);
}

} // verus!
