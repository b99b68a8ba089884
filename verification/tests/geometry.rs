//! Exact-arithmetic tests: rationals, raycasting, the planar mapper, and the
//! ground-plane lattice.

use terrain_mesh::ground::GroundPlane;
use terrain_mesh::ortho::{constrain, OrthoView};
use terrain_mesh::rat::Rat;
use terrain_mesh::raycast::{ground_plane_intersection, OriginModel};
use terrain_mesh::vec3::{Vec2, Vec3};

fn rat_is(r: &Rat, num: i128, den: i128) -> bool {
    assert!(r.den > 0);
    assert!(den > 0);
    r.num * den == num * r.den
}

#[test]
fn rat_arithmetic_is_exact() {
    let half = Rat::new(1, 2);
    let third = Rat::new(1, 3);
    let sum = half.plus(&third);
    assert_eq!(sum.num, 5);
    assert_eq!(sum.den, 6);
    let diff = half.minus(&third);
    assert!(rat_is(&diff, 1, 6));
    let prod = half.times(&third);
    assert!(rat_is(&prod, 1, 6));
    let quot = half.over(&third);
    assert!(rat_is(&quot, 3, 2));
    let neg_third = Rat::new(-1, 3);
    let quot_neg = half.over(&neg_third);
    assert!(quot_neg.den > 0);
    assert!(rat_is(&quot_neg, -3, 2));
    assert!(half.lt(&Rat::from_int(1)));
    assert!(!half.lt(&Rat::new(2, 4)));
    assert!(half.le(&Rat::new(2, 4)));
    assert!(half.eqv(&Rat::new(3, 6)));
    assert!(!half.eqv(&third));
}

#[test]
fn raycast_straight_down_hits_origin() {
    let origin = Vec3::new(Rat::from_int(0), Rat::from_int(5), Rat::from_int(0));
    let dir = Vec3::new(Rat::from_int(0), Rat::from_int(-1), Rat::from_int(0));
    let hit = ground_plane_intersection(&dir, &origin).expect("must intersect");
    assert!(rat_is(&hit.x, 0, 1));
    assert_eq!(hit.y.num, 0);
    assert!(rat_is(&hit.z, 0, 1));
}

#[test]
fn raycast_parallel_ray_misses() {
    let origin = Vec3::new(Rat::from_int(0), Rat::from_int(5), Rat::from_int(0));
    let dir = Vec3::new(Rat::from_int(1), Rat::from_int(0), Rat::from_int(0));
    assert!(ground_plane_intersection(&dir, &origin).is_none());
}

#[test]
fn raycast_oblique_ray_lands_on_plane() {
    // From (1, 2, 3) along (1, -2, 1): t = 2 / -2 = -1, hit at (2, 0, 4).
    let origin = Vec3::new(Rat::from_int(1), Rat::from_int(2), Rat::from_int(3));
    let dir = Vec3::new(Rat::from_int(1), Rat::from_int(-2), Rat::from_int(1));
    let hit = ground_plane_intersection(&dir, &origin).expect("must intersect");
    assert!(rat_is(&hit.x, 2, 1));
    assert_eq!(hit.y.num, 0);
    assert!(rat_is(&hit.z, 4, 1));
}

#[test]
fn origin_marker_follows_hits_and_ignores_misses() {
    let mut marker = OriginModel::new();
    assert!(rat_is(&marker.position().x, 0, 1));
    assert!(rat_is(&marker.position().y, 1, 2));
    assert!(rat_is(&marker.position().z, 0, 1));

    let origin = Vec3::new(Rat::from_int(7), Rat::from_int(5), Rat::from_int(-3));
    let down = Vec3::new(Rat::from_int(0), Rat::from_int(-1), Rat::from_int(0));
    marker.update_from_ray(&down, &origin);
    assert!(rat_is(&marker.position().x, 7, 1));
    assert!(rat_is(&marker.position().y, 1, 2), "static height untouched");
    assert!(rat_is(&marker.position().z, -3, 1));

    let sideways = Vec3::new(Rat::from_int(1), Rat::from_int(0), Rat::from_int(0));
    marker.update_from_ray(&sideways, &origin);
    assert!(rat_is(&marker.position().x, 7, 1), "miss leaves marker unchanged");
    assert!(rat_is(&marker.position().z, -3, 1));

    marker.set_static_height(Rat::from_int(4));
    assert!(rat_is(&marker.position().y, 4, 1));
    assert!(rat_is(&marker.position().x, 7, 1));
}

#[test]
fn overview_corner_maps_to_clamp_boundary() {
    let view = OrthoView::new(
        Vec2::new(Rat::from_int(300), Rat::from_int(300)),
        Vec2::new(Rat::from_int(256), Rat::from_int(256)),
    );
    // The extreme corner (128, 128) lands exactly on the boundary (-150, 150).
    let (mx, my) = view.constrained_scale_xy(&Rat::from_int(128), &Rat::from_int(128));
    assert!(rat_is(&mx, -150, 1));
    assert!(rat_is(&my, 150, 1));
}

#[test]
fn overview_clamps_points_beyond_the_extent() {
    let view = OrthoView::new(
        Vec2::new(Rat::from_int(300), Rat::from_int(300)),
        Vec2::new(Rat::from_int(256), Rat::from_int(256)),
    );
    let (mx, my) = view.constrained_scale_xy(&Rat::from_int(500), &Rat::from_int(0));
    assert!(rat_is(&mx, -150, 1), "clamped to the boundary, not beyond");
    assert!(rat_is(&my, 0, 1));
    let (nx, ny) = view.constrained_scale_xy(&Rat::from_int(-500), &Rat::from_int(-500));
    assert!(rat_is(&nx, 150, 1));
    assert!(rat_is(&ny, -150, 1));
}

#[test]
fn overview_interior_point_is_scaled_and_mirrored() {
    let view = OrthoView::new(
        Vec2::new(Rat::from_int(300), Rat::from_int(300)),
        Vec2::new(Rat::from_int(256), Rat::from_int(256)),
    );
    // (64, -32) -> (-(64 * 300/256), -32 * 300/256) = (-75, -37.5).
    let (mx, my) = view.constrained_scale_xy(&Rat::from_int(64), &Rat::from_int(-32));
    assert!(rat_is(&mx, -75, 1));
    assert!(rat_is(&my, -75, 2));
}

#[test]
fn constrain_picks_value_or_bound() {
    let lo = Rat::from_int(-2);
    let hi = Rat::from_int(2);
    assert!(rat_is(&constrain(&Rat::from_int(1), &lo, &hi), 1, 1));
    assert!(rat_is(&constrain(&Rat::from_int(-5), &lo, &hi), -2, 1));
    assert!(rat_is(&constrain(&Rat::from_int(5), &lo, &hi), 2, 1));
    assert!(rat_is(&constrain(&Rat::from_int(-2), &lo, &hi), -2, 1));
}

#[test]
fn ground_plane_lattice_has_stepped_lines() {
    let gp = GroundPlane::new(800, 10);
    // Offsets 0, 10, ..., 390: one group of 2 lines, then 39 groups of 4.
    assert_eq!(gp.lines().len(), 2 + 39 * 4);
    let first = &gp.lines()[0];
    assert!(rat_is(&first.a.x, 0, 1));
    assert!(rat_is(&first.a.y, 0, 1));
    assert!(rat_is(&first.a.z, 400, 1));
    assert!(rat_is(&first.b.z, -400, 1));
    // The second group starts with the line at x == 10 and its mirror.
    let third = &gp.lines()[2];
    assert!(rat_is(&third.a.x, 10, 1));
    let fourth = &gp.lines()[3];
    assert!(rat_is(&fourth.a.x, -10, 1));
    assert!(gp.is_visible());
}

#[test]
fn ground_plane_visibility_toggles() {
    let mut gp = GroundPlane::new(20, 7);
    // Offsets 0 and 7 below 10: 2 + 4 lines.
    assert_eq!(gp.lines().len(), 6);
    gp.set_visible(false);
    assert!(!gp.is_visible());
    gp.set_visible(true);
    assert!(gp.is_visible());
}

#[test]
fn ground_plane_of_tiny_extent_is_empty() {
    let gp = GroundPlane::new(1, 3);
    assert_eq!(gp.lines().len(), 0);
}
