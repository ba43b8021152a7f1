//! End-to-end tests of the fixed-point physics engine: exact values for
//! the scalar and vector operations, the documented collision scenarios,
//! and the soft-body constraint and tearing behaviour.

use physics_playground::fixed::{FX_ONE, FX_PI, fx_mul, fx_div, fx_sqrt, fx_abs, nearly_equal};
use physics_playground::vec2::Vec2;
use physics_playground::aabb::Aabb;
use physics_playground::material::{Material, MaterialName};
use physics_playground::shape::{Circle, Polygon, ShapeType};
use physics_playground::body::RigidBody;
use physics_playground::collision::{
    circle_vs_circle, polygon_vs_polygon, point_segment_distance, ray_vs_circle,
};
use physics_playground::soft::{SoftBody, Constraint};
use physics_playground::world::{World, PhysicsData};
use physics_playground::pairs::get_pair_mut;

fn fx(units: i64) -> i64 {
    units * FX_ONE
}

#[test]
fn fixed_point_arithmetic_is_exact() {
    assert_eq!(fx_mul(fx(3), fx(4)), fx(12));
    assert_eq!(fx_mul(1_500_000, 2_000_000), 3_000_000);
    assert_eq!(fx_div(fx(10), fx(4)), 2_500_000);
    assert_eq!(fx_div(fx(1), 0), 0);
    assert_eq!(fx_sqrt(fx(9)), fx(3));
    assert_eq!(fx_sqrt(fx(2)), 1_414_213);
    assert_eq!(fx_abs(-fx(7)), fx(7));
    assert!(nearly_equal(fx(1), fx(1) + 400, 500));
    assert!(!nearly_equal(fx(1), fx(1) + 600, 500));
}

#[test]
fn vector_length_and_normalization() {
    let v = Vec2::new(fx(3), fx(4));
    assert_eq!(v.vlen(), fx(5));
    let n = v.vnorm();
    assert_eq!(n.x, 600_000);
    assert_eq!(n.y, 800_000);
    assert_eq!(v.vdot(v), fx(25));
    assert_eq!(v.vcross(Vec2::new(fx(1), 0)), -fx(4));
    assert_eq!(v.vperp(), Vec2::new(-fx(4), fx(3)));
}

#[test]
fn material_presets_match_their_table() {
    let ice = Material::preset(MaterialName::Ice);
    assert_eq!(ice.density, 917_000);
    assert_eq!(ice.restitution, 700_000);
    assert_eq!(ice.static_friction, 150_000);
    assert_eq!(ice.dynamic_friction, 50_000);
    let wood = Material::preset(MaterialName::Wood);
    assert_eq!(wood.density, 700_000);
    assert_eq!(wood.restitution, 500_000);
}

#[test]
fn circle_area_and_inertia() {
    let c = Circle::new(Vec2::new(0, 0), fx(25), 0);
    // pi * 25^2, in fixed point with the truncating product chain.
    assert_eq!(c.area(), 1_963_495_625);
    // pi * 25^4 / 4.
    assert_eq!(c.moment_of_inertia(), 306_796_191_406);
    assert!(c.contains_point(Vec2::new(fx(20), 0)));
    assert!(!c.contains_point(Vec2::new(fx(26), 0)));
}

#[test]
fn rectangle_area_and_aabb() {
    let p = Polygon::new_rectangle(Vec2::new(fx(5), fx(5)), fx(10), fx(20), 0);
    assert_eq!(p.area, fx(200));
    // World vertices go through the polynomial rotation, whose angle-zero
    // sine is only approximately zero; the box is exact to ~0.01 units.
    let aabb = p.get_aabb();
    assert!((aabb.top_left.x - 0).abs() < 15_000);
    assert!((aabb.top_left.y + fx(5)).abs() < 15_000);
    assert!((aabb.bottom_right.x - fx(10)).abs() < 15_000);
    assert!((aabb.bottom_right.y - fx(15)).abs() < 15_000);
    assert!(p.contains_point(Vec2::new(fx(5), fx(5))));
    assert!(!p.contains_point(Vec2::new(fx(20), fx(5))));
}

#[test]
fn aabb_overlap_and_expansion() {
    let a = Aabb { top_left: Vec2::new(0, 0), bottom_right: Vec2::new(fx(10), fx(10)) };
    let b = Aabb { top_left: Vec2::new(fx(5), fx(5)), bottom_right: Vec2::new(fx(15), fx(15)) };
    let c = Aabb { top_left: Vec2::new(fx(20), 0), bottom_right: Vec2::new(fx(30), fx(10)) };
    assert!(a.overlap(&b));
    assert!(!a.overlap(&c));
    let grown = a.expand_by(Vec2::new(fx(12), 0));
    assert!(grown.overlap(&c));
}

#[test]
fn point_segment_distance_picks_the_closest_point() {
    let (d2, cp) = point_segment_distance(
        Vec2::new(fx(5), fx(3)),
        Vec2::new(0, 0),
        Vec2::new(fx(10), 0),
    );
    assert_eq!(cp, Vec2::new(fx(5), 0));
    assert_eq!(d2, fx(9));
    // Beyond the endpoint the endpoint itself is closest.
    let (_, cp2) = point_segment_distance(
        Vec2::new(fx(15), 0),
        Vec2::new(0, 0),
        Vec2::new(fx(10), 0),
    );
    assert_eq!(cp2, Vec2::new(fx(10), 0));
}

#[test]
fn circle_circle_overlap_reports_depth_and_normal() {
    let a = Circle::new(Vec2::new(0, 0), fx(20), 0);
    let b = Circle::new(Vec2::new(fx(30), 0), fx(20), 0);
    let cd = circle_vs_circle(&a, &b).unwrap();
    assert_eq!(cd.sep_or_t, -fx(10));
    assert_eq!(cd.normal, Vec2::new(FX_ONE, 0));

    let c = Circle::new(Vec2::new(fx(50), 0), fx(20), 0);
    assert!(circle_vs_circle(&a, &c).is_none());
    // Concentric circles have no defined normal and report nothing.
    assert!(circle_vs_circle(&a, &Circle::new(Vec2::new(0, 0), fx(5), 0)).is_none());
}

#[test]
fn sat_reports_symmetric_depth_and_opposite_normals() {
    let a = Polygon::new_rectangle(Vec2::new(0, 0), fx(10), fx(10), 0);
    let b = Polygon::new_rectangle(Vec2::new(fx(8), 0), fx(10), fx(10), 0);
    let r1 = polygon_vs_polygon(&a, &b).unwrap();
    let r2 = polygon_vs_polygon(&b, &a).unwrap();
    assert_eq!(r1.sep_or_t, r2.sep_or_t);
    assert_eq!(r1.normal.x, -r2.normal.x);
    assert_eq!(r1.normal.y, -r2.normal.y);
    // Separated rectangles report nothing, in either order.
    let c = Polygon::new_rectangle(Vec2::new(fx(25), 0), fx(10), fx(10), 0);
    assert!(polygon_vs_polygon(&a, &c).is_none());
    assert!(polygon_vs_polygon(&c, &a).is_none());
}

#[test]
fn ray_hits_a_circle_at_the_expected_parameter() {
    let origin = Vec2::new(-fx(100), 0);
    let dir = Vec2::new(fx(200), 0);
    let c = Circle::new(Vec2::new(0, 0), fx(10), 0);
    let cd = ray_vs_circle(origin, dir, &c).unwrap();
    // The hit is at x = -10, i.e. t = 90 / 200 = 0.45.
    assert!((cd.sep_or_t - 450_000).abs() < 2_000);
    assert!(ray_vs_circle(origin, Vec2::new(-fx(200), 0), &c).is_none());
}

#[test]
fn static_bodies_have_exactly_zero_inverses() {
    let shape = ShapeType::Circle(Circle::new(Vec2::new(0, 0), fx(25), 0));
    let body = RigidBody::new(shape, Material::preset(MaterialName::Concrete), true);
    assert_eq!(body.get_inv_mass(), 0);
    assert_eq!(body.get_inv_inertia(), 0);
}

#[test]
fn static_body_is_untouched_by_collisions() {
    let wall = Circle::new(Vec2::new(0, 0), fx(25), 0);
    let ball = Circle::new(Vec2::new(fx(40), 0), fx(25), 0);
    let mut a = RigidBody::new(ShapeType::Circle(wall), Material::preset(MaterialName::Concrete), true);
    let mut b = RigidBody::new(ShapeType::Circle(ball), Material::preset(MaterialName::Wood), false);
    b.linear_velocity = Vec2::new(-fx(100), 0);

    let cd = a.collide_with(&mut b).unwrap();
    a.resolve_collision(&mut b, &cd);
    a.resolve_collision(&mut b, &cd);

    // The static body never moves or gains velocity.
    assert_eq!(a.shape.get_center(), Vec2::new(0, 0));
    assert_eq!(a.linear_velocity, Vec2::new(0, 0));
    assert_eq!(a.angular_velocity, 0);
    // The dynamic ball bounced back.
    assert!(b.linear_velocity.x > 0);
}

#[test]
fn head_on_circles_bounce_at_half_speed() {
    // Two unit circles of radius 25, equal mass, restitution 0.5,
    // closing head-on at relative speed 100 along x.
    let ca = Circle::new(Vec2::new(0, 0), fx(25), 0);
    let cb = Circle::new(Vec2::new(fx(49), 0), fx(25), 0);
    let mut a = RigidBody::new(ShapeType::Circle(ca), Material::preset(MaterialName::Wood), false);
    let mut b = RigidBody::new(ShapeType::Circle(cb), Material::preset(MaterialName::Wood), false);
    a.linear_velocity = Vec2::new(fx(50), 0);
    b.linear_velocity = Vec2::new(-fx(50), 0);

    let cd = a.collide_with(&mut b).unwrap();
    a.resolve_collision(&mut b, &cd);

    // Post speeds are 25 each, in opposite directions, up to the
    // fixed-point rounding of the inverse masses.
    assert!((a.linear_velocity.x + fx(25)).abs() < 5_000);
    assert!((b.linear_velocity.x - fx(25)).abs() < 5_000);
    // Linear momentum of the equal-mass pair is conserved exactly.
    assert_eq!(a.linear_velocity.x + b.linear_velocity.x, 0);
    // Push-out leaves the pair separated: no further overlap is found.
    let again = a.collide_with(&mut b);
    assert!(again.is_none());
    // The centres are a diameter apart, up to one raw step.
    let dist = match (&a.shape, &b.shape) {
        (ShapeType::Circle(x), ShapeType::Circle(y)) => y.center.vsub(x.center).vlen(),
        _ => unreachable!(),
    };
    assert!((dist - fx(50)).abs() <= 2);
}

#[test]
fn push_out_is_idempotent_for_separated_bodies() {
    let ca = Circle::new(Vec2::new(0, 0), fx(10), 0);
    let cb = Circle::new(Vec2::new(fx(30), 0), fx(10), 0);
    let mut a = RigidBody::new(ShapeType::Circle(ca), Material::preset(MaterialName::Wood), false);
    let mut b = RigidBody::new(ShapeType::Circle(cb), Material::preset(MaterialName::Wood), false);
    assert!(a.collide_with(&mut b).is_none());
    assert_eq!(a.shape.get_center(), Vec2::new(0, 0));
    assert_eq!(b.shape.get_center(), Vec2::new(fx(30), 0));
}

#[test]
fn string_has_evenly_spaced_joints() {
    let s = SoftBody::new_string(Vec2::new(0, 0), Vec2::new(fx(40), 0), 5);
    assert_eq!(s.joints.len(), 5);
    assert_eq!(s.constraints.len(), 4);
    assert_eq!(s.constraints[0].rest_length, fx(10));
    assert_eq!(s.constraints[0].tear_length, fx(20));
    assert_eq!(s.joints[2].position, Vec2::new(fx(20), 0));
}

#[test]
fn two_joint_chain_converges_to_rest_length() {
    let mut s = SoftBody::new_string(Vec2::new(0, 0), Vec2::new(fx(12), 0), 2);
    // One constraint at rest length 12, stretched to 15; full stiffness.
    s.joints[1].position = Vec2::new(fx(15), 0);
    s.joints[1].predicted_position = Vec2::new(fx(15), 0);
    let mut c = s.constraints[0];
    c.stiffness = FX_ONE;
    s.constraints[0] = c;

    let physics = PhysicsData { gravity: Vec2::new(0, 0), air_density: 0, dt: 8_333 };
    let mut bodies: Vec<RigidBody> = Vec::new();
    let mut contacts = Vec::new();
    let tear = s.resolve_constraints(&physics, &mut bodies, &mut contacts);
    assert!(tear.is_none());

    let dist = s.joints[1].position.vsub(s.joints[0].position).vlen();
    assert!((dist - fx(12)).abs() < 30_000, "distance {} not near rest", dist);
}

#[test]
fn overstretched_chain_tears_once_at_the_end() {
    let mut s = SoftBody::new_string(Vec2::new(0, 0), Vec2::new(fx(10), 0), 2);
    // Stretch far beyond the tear length of 20.
    s.joints[1].position = Vec2::new(fx(100), 0);
    s.joints[1].predicted_position = Vec2::new(fx(100), 0);

    let physics = PhysicsData { gravity: Vec2::new(0, 0), air_density: 0, dt: 8_333 };
    let mut bodies: Vec<RigidBody> = Vec::new();
    let mut contacts = Vec::new();
    let torn_off = s.resolve_constraints(&physics, &mut bodies, &mut contacts);

    // For a two-joint chain the split just drops the far joint; the
    // second structure is degenerate and nothing is handed back.
    assert!(torn_off.is_none());
    assert_eq!(s.joints.len(), 1);
    assert_eq!(s.constraints.len(), 0);
}

#[test]
fn middle_tear_splits_into_two_chains() {
    let mut s = SoftBody::new_string(Vec2::new(0, 0), Vec2::new(fx(30), 0), 4);
    let other = s.tear_string_at(1).unwrap();
    assert_eq!(s.joints.len(), 2);
    assert_eq!(s.constraints.len(), 1);
    assert_eq!(other.joints.len(), 2);
    assert_eq!(other.constraints.len(), 1);
    assert_eq!(other.constraints[0].index_a, 0);
    assert_eq!(other.constraints[0].index_b, 1);
}

#[test]
fn first_tear_reindexes_the_remaining_constraints() {
    let mut s = SoftBody::new_string(Vec2::new(0, 0), Vec2::new(fx(30), 0), 4);
    let other = s.tear_string_at(0);
    assert!(other.is_none());
    assert_eq!(s.joints.len(), 3);
    assert_eq!(s.constraints.len(), 2);
    let c: Constraint = s.constraints[0];
    assert_eq!(c.index_a, 0);
    assert_eq!(c.index_b, 1);
}

#[test]
fn pair_access_gives_both_elements() {
    let mut v = vec![10i64, 20, 30, 40];
    {
        let (a, b) = get_pair_mut(&mut v, 3, 1);
        assert_eq!(*a, 40);
        assert_eq!(*b, 20);
        *a = 41;
        *b = 21;
    }
    assert_eq!(v, vec![10, 21, 30, 41]);
}

#[test]
fn gravity_pulls_a_free_body_down() {
    let physics = PhysicsData::standard();
    let mut world = World::new(physics, 7);
    let ball = Circle::new(Vec2::new(0, 0), fx(10), 0);
    world.bodies.push(RigidBody::new(
        ShapeType::Circle(ball),
        Material::preset(MaterialName::Wood),
        false,
    ));
    for _ in 0..10 {
        world.update(8_333);
    }
    let c = world.bodies[0].shape.get_center();
    assert!(c.y > 0, "body should have fallen, y = {}", c.y);
    assert_eq!(c.x, 0);
}

#[test]
fn circle_rests_on_a_static_ramp() {
    // A shallow ramp (5 percent grade) with high static friction, and a
    // wooden ball dropped just above it: after settling, the ball's
    // velocity stays near zero instead of sliding away.
    let physics = PhysicsData { gravity: Vec2::new(0, fx(250)), air_density: 80_000, dt: 8_333 };
    let mut world = World::new(physics, 42);

    let ramp_verts = vec![
        Vec2::new(-fx(100), fx(45)),
        Vec2::new(fx(100), fx(55)),
        Vec2::new(fx(100), fx(80)),
        Vec2::new(-fx(100), fx(80)),
    ];
    let ramp = Polygon::new(ramp_verts, Vec2::new(0, fx(62)), 0);
    world.bodies.push(RigidBody::new(
        ShapeType::Polygon(ramp),
        Material::preset(MaterialName::Concrete),
        true,
    ));

    let ball = Circle::new(Vec2::new(0, fx(30)), fx(10), 0);
    world.bodies.push(RigidBody::new(
        ShapeType::Circle(ball),
        Material::preset(MaterialName::Wood),
        false,
    ));

    for _ in 0..240 {
        world.update(8_333);
    }
    let v = world.bodies[1].linear_velocity;
    assert!(v.vlen() < fx(20), "ball should settle, |v| = {}", v.vlen());
    // The static ramp itself never moved.
    assert_eq!(world.bodies[0].linear_velocity, Vec2::new(0, 0));
}

#[test]
fn world_update_appends_torn_chain() {
    // A four-joint chain whose middle constraint is overstretched: the
    // step must tear there and surface the torn-off rest as a new
    // string in the world's list, never dropping it.
    let physics = PhysicsData { gravity: Vec2::new(0, 0), air_density: 0, dt: 8_333 };
    let mut world = World::new(physics, 3);
    let mut s = SoftBody::new_string(Vec2::new(0, 0), Vec2::new(fx(30), 0), 4);
    // Rest length 10, tear length 20; stretch the middle gap to 35.
    s.joints[2].position = Vec2::new(fx(45), 0);
    s.joints[2].predicted_position = Vec2::new(fx(45), 0);
    s.joints[3].position = Vec2::new(fx(55), 0);
    s.joints[3].predicted_position = Vec2::new(fx(55), 0);
    world.strings.push(s);

    world.update(8_333);

    assert_eq!(world.strings.len(), 2);
    assert_eq!(world.strings[0].joints.len(), 2);
    assert_eq!(world.strings[0].constraints.len(), 1);
    assert_eq!(world.strings[1].joints.len(), 2);
    assert_eq!(world.strings[1].constraints.len(), 1);
    assert_eq!(world.strings[1].constraints[0].index_a, 0);
    assert_eq!(world.strings[1].constraints[0].index_b, 1);
}

#[test]
fn update_velocity_applies_gravity_and_drag() {
    let physics = PhysicsData { gravity: Vec2::new(0, fx(100)), air_density: 0, dt: 500_000 };
    let ball = Circle::new(Vec2::new(0, 0), fx(10), 0);
    let mut body = RigidBody::new(ShapeType::Circle(ball), Material::preset(MaterialName::Wood), false);
    body.update_velocity(&physics);
    // Half a second of gravity 100: velocity 50 down, no drag.
    assert_eq!(body.linear_velocity, Vec2::new(0, fx(50)));
    body.update_position(500_000);
    assert_eq!(body.shape.get_center(), Vec2::new(0, fx(25)));
}
