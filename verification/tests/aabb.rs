use raytracing::hittable::{Aabb, Interval, Slab};
use raytracing::{Point3, Scalar};

fn num(x: f64) -> Scalar {
    Scalar::from_bits(x.to_bits()).unwrap()
}

fn val(s: Scalar) -> f64 {
    f64::from_bits(s.to_bits())
}

fn point(x: f64, y: f64, z: f64) -> Point3 {
    Point3::new(num(x), num(y), num(z))
}

fn cube(min: (f64, f64, f64), max: (f64, f64, f64)) -> Aabb {
    Aabb::new(point(min.0, min.1, min.2), point(max.0, max.1, max.2))
}

fn slab_of(orig: f64, dir: f64, min: f64, max: f64) -> Slab {
    let inv_d = 1.0 / dir;
    Slab {
        inv_d: num(inv_d),
        t0: Scalar::from_bits(((min - orig) * inv_d).to_bits()),
        t1: Scalar::from_bits(((max - orig) * inv_d).to_bits()),
    }
}

fn slabs(bb: &Aabb, orig: (f64, f64, f64), dir: (f64, f64, f64)) -> [Slab; 3] {
    [
        slab_of(orig.0, dir.0, val(bb.minimum.x), val(bb.maximum.x)),
        slab_of(orig.1, dir.1, val(bb.minimum.y), val(bb.maximum.y)),
        slab_of(orig.2, dir.2, val(bb.minimum.z), val(bb.maximum.z)),
    ]
}

fn corners(bb: &Aabb) -> Vec<(f64, f64, f64)> {
    let mut out = Vec::new();
    for x in [bb.minimum.x, bb.maximum.x] {
        for y in [bb.minimum.y, bb.maximum.y] {
            for z in [bb.minimum.z, bb.maximum.z] {
                out.push((val(x), val(y), val(z)));
            }
        }
    }
    out
}

fn inside(bb: &Aabb, p: (f64, f64, f64)) -> bool {
    val(bb.minimum.x) <= p.0
        && p.0 <= val(bb.maximum.x)
        && val(bb.minimum.y) <= p.1
        && p.1 <= val(bb.maximum.y)
        && val(bb.minimum.z) <= p.2
        && p.2 <= val(bb.maximum.z)
}

#[test]
fn surrounding_box_is_componentwise() {
    let a = cube((0.0, -1.0, 2.0), (1.0, 4.0, 3.0));
    let b = cube((-2.0, 0.0, 2.5), (0.5, 5.0, 2.75));
    let u = a.surrounding_box(&b);
    assert_eq!(corners(&u)[0], (-2.0, -1.0, 2.0));
    assert_eq!(corners(&u)[7], (1.0, 5.0, 3.0));
    assert_eq!(u, b.surrounding_box(&a));
}

#[test]
fn surrounding_box_contains_both_boxes() {
    let boxes = [
        cube((0.0, 0.0, 0.0), (1.0, 1.0, 1.0)),
        cube((-3.0, 2.0, 0.5), (-1.0, 2.0, 9.0)),
        cube((1.0e-9, -1.0e9, 0.0), (2.0e-9, 1.0e9, 0.0)),
        cube((5.0, 5.0, 5.0), (5.0, 5.0, 5.0)),
    ];
    for a in &boxes {
        for b in &boxes {
            let u = a.surrounding_box(b);
            for c in corners(a).into_iter().chain(corners(b)) {
                assert!(inside(&u, c));
            }
        }
    }
}

#[test]
fn merge_folds_into_what_was_gathered() {
    let a = cube((0.0, 0.0, 0.0), (1.0, 1.0, 1.0));
    let b = cube((2.0, -1.0, 0.0), (3.0, 0.5, 4.0));
    assert_eq!(a.merge(&None), Some(a));
    assert_eq!(a.merge(&Some(b)), Some(a.surrounding_box(&b)));
}

#[test]
fn box_hit_and_miss() {
    let bb = cube((-1.0, -1.0, -1.0), (1.0, 1.0, 1.0));
    let [x, y, z] = slabs(&bb, (0.0, 0.0, -5.0), (0.0, 0.0, 1.0));
    assert!(Aabb::hit(&x, &y, &z, num(0.001), num(f64::INFINITY)));
    let r = Aabb::clipped(&x, &y, &z, num(0.001), num(f64::INFINITY)).unwrap();
    assert_eq!((val(r.t_min), val(r.t_max)), (4.0, 6.0));
    // The stretch ends before the box begins.
    assert!(!Aabb::hit(&x, &y, &z, num(0.001), num(3.0)));
    // The stretch touches the box in one point only.
    assert!(!Aabb::hit(&x, &y, &z, num(0.001), num(4.0)));
    // A ray that passes beside the box.
    let [x, y, z] = slabs(&bb, (3.0, 0.0, -5.0), (0.0, 0.0, 1.0));
    assert!(!Aabb::hit(&x, &y, &z, num(0.001), num(f64::INFINITY)));
    // A ray that runs against the axis.
    let [x, y, z] = slabs(&bb, (0.5, 0.5, 5.0), (0.0, 0.0, -2.0));
    let r = Aabb::clipped(&x, &y, &z, num(0.0), num(100.0)).unwrap();
    assert_eq!((val(r.t_min), val(r.t_max)), (2.0, 3.0));
}

#[test]
fn box_hit_with_undefined_distance() {
    // The ray starts on the face x = -1 and runs inside it: 0 times infinity.
    let bb = cube((-1.0, -1.0, -1.0), (1.0, 1.0, 1.0));
    let [x, y, z] = slabs(&bb, (-1.0, 0.0, -5.0), (0.0, 0.0, 1.0));
    assert!(x.t0.is_none());
    let r = Aabb::clipped(&x, &y, &z, num(0.0), num(100.0)).unwrap();
    assert_eq!((val(r.t_min), val(r.t_max)), (4.0, 6.0));
}

#[test]
fn slab_tighten_swaps_for_negative_direction() {
    let s = Slab { inv_d: num(-0.5), t0: Some(num(7.0)), t1: Some(num(3.0)) };
    let r = s.tighten(Interval { t_min: num(0.0), t_max: num(10.0) });
    assert_eq!((val(r.t_min), val(r.t_max)), (3.0, 7.0));
    let s = Slab { inv_d: num(0.5), t0: Some(num(3.0)), t1: Some(num(7.0)) };
    let r = s.tighten(Interval { t_min: num(4.0), t_max: num(5.0) });
    assert_eq!((val(r.t_min), val(r.t_max)), (4.0, 5.0));
}

#[test]
fn box_hit_does_not_depend_on_axis_order() {
    let bb = cube((-1.0, 0.0, 2.0), (1.0, 3.0, 2.5));
    let mut seed: u64 = 12345;
    let mut next = move || {
        seed = seed.wrapping_mul(6364136223846793005).wrapping_add(1442695040888963407);
        ((seed >> 11) as f64 / (1u64 << 53) as f64) * 8.0 - 4.0
    };
    let mut hits = 0;
    for _ in 0..500 {
        let orig = (next(), next(), next());
        let dir = (next(), next(), next());
        let [x, y, z] = slabs(&bb, orig, dir);
        let (lo, hi) = (num(0.001), num(f64::INFINITY));
        let first = Aabb::clipped(&x, &y, &z, lo, hi);
        for (a, b, c) in [(x, z, y), (y, x, z), (y, z, x), (z, x, y), (z, y, x)] {
            assert_eq!(Aabb::clipped(&a, &b, &c, lo, hi), first);
            assert_eq!(Aabb::hit(&a, &b, &c, lo, hi), first.is_some());
        }
        if first.is_some() {
            hits += 1;
        }
    }
    assert!(hits > 0 && hits < 500);
}
