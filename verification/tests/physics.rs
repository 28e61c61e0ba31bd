//! Tests of the collision primitive and the fixed-point integrator.

use super_jeff::math::Vec2i;
use super_jeff::physics::collides;

fn v(x: i64, y: i64) -> Vec2i {
    Vec2i::new(x, y)
}

#[test]
fn collides_detects_overlap() {
    // Two unit boxes whose centers are 0.9 units apart overlap.
    assert!(collides(v(0, 0), v(1000, 1000), v(900, 0), v(1000, 1000)));
    assert!(collides(v(0, 0), v(1000, 1000), v(0, -900), v(1000, 1000)));
}

#[test]
fn collides_is_symmetric() {
    let cases = [
        (v(0, 0), v(1000, 1000), v(900, 0), v(1000, 1000)),
        (v(0, 0), v(1000, 1000), v(1000, 0), v(1000, 1000)),
        (v(-500, 250), v(900, 1800), v(133, -77), v(1500, 3000)),
        (v(7, 7), v(0, 0), v(7, 7), v(0, 0)),
    ];
    for (pa, ra, pb, rb) in cases {
        assert_eq!(collides(pa, ra, pb, rb), collides(pb, rb, pa, ra));
    }
}

#[test]
fn collides_tangency_is_not_overlap() {
    // Touching edges exactly (gap of zero) do not count as overlap, so a
    // body can rest flush against a tile.
    assert!(!collides(v(0, 0), v(1000, 1000), v(1000, 0), v(1000, 1000)));
    assert!(!collides(v(0, 0), v(1000, 1000), v(0, 1000), v(1000, 1000)));
    // One step short of tangency overlaps again.
    assert!(collides(v(0, 0), v(1000, 1000), v(999, 0), v(1000, 1000)));
}

#[test]
fn zero_extent_boxes_never_collide() {
    assert!(!collides(v(5, 5), v(0, 0), v(5, 5), v(0, 0)));
}
