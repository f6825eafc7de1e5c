use vstd::prelude::*;
use crate::config::PhysicsConfig;
use crate::fixed::{POS_MAX, UNIT};
use crate::gravity_field::GravityField;
use crate::pixel::Pixel;
use crate::vector::Vector;

verus! {

/// Sum of the pulls of the fields of `fields` that cover `point`.
pub open spec fn net_acceleration(point: Vector, fields: Seq<GravityField>) -> Vector
    decreases fields.len(),
{
    if fields.len() == 0 {
        Vector { x: 0, y: 0 }
    } else {
        let acc = net_acceleration(point, fields.drop_last());
        if fields.last().covers(point) {
            acc.sum(fields.last().pull(point))
        } else {
            acc
        }
    }
}

/// Friction against `velocity`: its direction reversed, scaled by `friction`.
pub open spec fn friction_against(velocity: Vector, friction: i64) -> Vector {
    velocity.normalized().product(Vector { x: (-UNIT) as i64, y: (-UNIT) as i64 }).product(
        Vector { x: friction, y: friction },
    )
}

/// One integration step of a pixel: field pulls and friction are added to
/// the velocity, the velocity is clamped per axis, then added to the position,
/// which saturates at `POS_MAX`.
pub open spec fn step_pixel(p: Pixel, fields: Seq<GravityField>, phy: PhysicsConfig) -> Pixel {
    let acc = net_acceleration(p.position, fields);
    let fr = friction_against(p.velocity, phy.friction);
    let v = p.velocity.sum(acc).sum(fr).clamped(phy.max_velocity as int);
    Pixel { position: p.position.sum(v).clamped(POS_MAX as int), velocity: v }
}

/// One integration step of every pixel.
pub open spec fn ticked(pixels: Seq<Pixel>, fields: Seq<GravityField>, phy: PhysicsConfig) -> Seq<
    Pixel,
> {
    pixels.map_values(|p: Pixel| step_pixel(p, fields, phy))
}

/// `n` integration steps of every pixel.
pub open spec fn ticked_n(
    pixels: Seq<Pixel>,
    fields: Seq<GravityField>,
    phy: PhysicsConfig,
    n: nat,
) -> Seq<Pixel>
    decreases n,
{
    if n == 0 {
        pixels
    } else {
        ticked(ticked_n(pixels, fields, phy, (n - 1) as nat), fields, phy)
    }
}

pub open spec fn all_fields_wf(fields: Seq<GravityField>) -> bool {
    forall|k: int| 0 <= k < fields.len() ==> #[trigger] fields[k].wf()
}

/// The acceleration that the fields give a pixel at `point`.
pub fn acceleration_at(point: &Vector, fields: &Vec<GravityField>) -> (r: Vector)
    requires
        point.wf(),
        all_fields_wf(fields@),
    ensures
        r == net_acceleration(*point, fields@),
        r.wf(),
{
    let mut acc = Vector::new(0, 0);
    let n = fields.len();
    let mut j: usize = 0;
    while j < n
        invariant
            n == fields.len(),
            0 <= j <= n,
            point.wf(),
            all_fields_wf(fields@),
            acc == net_acceleration(*point, fields@.subrange(0, j as int)),
            acc.wf(),
        decreases n - j,
    {
        let field = &fields[j];
        proof {
            let s = fields@.subrange(0, j as int + 1);
            assert(s.drop_last() =~= fields@.subrange(0, j as int));
            assert(s.last() == fields@[j as int]);
        }
        if field.in_aoe(point) {
            let pull = field.contribution(point);
            acc.add_assign(pull);
        }
        j += 1;
    }
    assert(fields@.subrange(0, n as int) =~= fields@);
    acc
}

/// One integration step of a pixel.
pub fn step(p: &Pixel, fields: &Vec<GravityField>, phy: &PhysicsConfig) -> (r: Pixel)
    requires
        p.wf(),
        all_fields_wf(fields@),
        phy.max_velocity >= 0,
    ensures
        r == step_pixel(*p, fields@, *phy),
        r.wf(),
{
    let acceleration = acceleration_at(&p.position, fields);

    // Friction: the velocity normalized, reversed and scaled.
    let mut friction = p.velocity;
    friction.normalize();
    friction.mul_assign(Vector::from(-UNIT));
    friction.mul_assign(Vector::from(phy.friction));

    let mut velocity = p.velocity;
    velocity.add_assign(acceleration);
    velocity.add_assign(friction);
    velocity.limit(phy.max_velocity);
    let mut position = p.position;
    position.add_assign(velocity);
    position.limit(POS_MAX);
    Pixel { position, velocity }
}

} // verus!
