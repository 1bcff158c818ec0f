use raytracing::hittable::mesh::{triangles, Corners, MeshError};
use raytracing::hittable::{
    Aabb, BoxObj, ConstantMedium, FlipFace, HitRecord, MovingSphere, RotateY, Side, Sphere,
    Translate, Triangle, Turned, XYRect, XZRect, YZRect,
};
use raytracing::{Point3, Scalar, Vec3};

fn num(x: f64) -> Scalar {
    Scalar::from_bits(x.to_bits()).unwrap()
}

fn val(s: Scalar) -> f64 {
    f64::from_bits(s.to_bits())
}

fn point(x: f64, y: f64, z: f64) -> Point3 {
    Point3::new(num(x), num(y), num(z))
}

#[test]
fn sphere_root_prefers_the_near_root() {
    let pick = |near: f64, far: f64, lo: f64, hi: f64| {
        Sphere::<()>::select_root(num(near), num(far), num(lo), num(hi)).map(val)
    };
    assert_eq!(pick(2.0, 4.0, 0.001, f64::INFINITY), Some(2.0));
    assert_eq!(pick(-1.0, 4.0, 0.001, f64::INFINITY), Some(4.0));
    assert_eq!(pick(-4.0, -1.0, 0.001, f64::INFINITY), None);
    assert_eq!(pick(2.0, 4.0, 0.001, 1.0), None);
    assert_eq!(pick(2.0, 4.0, 0.001, 2.0), Some(2.0));
    assert_eq!(pick(2.0, 4.0, 2.0, 3.0), Some(2.0));
    assert_eq!(pick(2.0, 4.0, 2.5, 3.5), None);
    assert_eq!(pick(2.0, 4.0, 2.5, 4.0), Some(4.0));
    assert_eq!(pick(3.0, 3.0, 0.0, 9.0), Some(3.0));
}

#[test]
fn sphere_misses_on_negative_discriminant_only() {
    assert!(Sphere::<()>::misses(num(-1.0e-12)));
    assert!(!Sphere::<()>::misses(num(0.0)));
    assert!(!Sphere::<()>::misses(num(3.0)));
}

#[test]
fn sphere_constructors_keep_their_arguments() {
    let s = Sphere::new(point(1.0, 2.0, 3.0), num(0.5), 'm');
    assert_eq!((val(s.center.y), val(s.radius), s.mat_ptr), (2.0, 0.5, 'm'));
    let m = MovingSphere::new(point(0.0, 0.0, 0.0), point(0.0, 0.5, 0.0), num(0.0), num(1.0), num(0.2), 7u8);
    assert_eq!((val(m.center0.y), val(m.center1.y)), (0.0, 0.5));
    assert_eq!((val(m.time0), val(m.time1), val(m.radius), m.mat_ptr), (0.0, 1.0, 0.2, 7));
}

#[test]
fn rect_accepts_crossings_inside_its_extent() {
    let r = XYRect::new(num(3.0), num(5.0), num(1.0), num(3.0), num(-2.0), ());
    let (lo, hi) = (num(0.001), num(f64::INFINITY));
    assert!(r.accepts(num(1.0), num(4.0), num(2.0), lo, hi));
    assert!(r.accepts(num(1.0), num(3.0), num(3.0), lo, hi));
    assert!(!r.accepts(num(1.0), num(2.999), num(2.0), lo, hi));
    assert!(!r.accepts(num(1.0), num(4.0), num(3.001), lo, hi));
    assert!(!r.accepts(num(0.0), num(4.0), num(2.0), lo, hi));
    assert!(!r.accepts(num(9.0), num(4.0), num(2.0), lo, num(8.0)));
    assert!(r.accepts(num(8.0), num(4.0), num(2.0), lo, num(8.0)));
    let r = XZRect::new(num(213.0), num(343.0), num(227.0), num(332.0), num(554.0), ());
    assert!(r.accepts(num(10.0), num(278.0), num(279.0), lo, hi));
    assert!(!r.accepts(num(10.0), num(278.0), num(333.0), lo, hi));
    let r = YZRect::new(num(0.0), num(555.0), num(0.0), num(555.0), num(555.0), ());
    assert!(r.accepts(num(10.0), num(0.0), num(555.0), lo, hi));
    assert!(!r.accepts(num(10.0), num(-0.1), num(555.0), lo, hi));
}

#[test]
fn box_has_six_sides_at_its_faces() {
    let b = BoxObj::new(point(0.0, 1.0, 2.0), point(165.0, 330.0, 166.0), 'w');
    assert_eq!(b.sides.len(), 6);
    let planes: Vec<(char, f64)> = (0..6)
        .map(|i| match b.sides.get(i) {
            Side::XY(r) => {
                assert_eq!((val(r.x0), val(r.x1), val(r.y0), val(r.y1)), (0.0, 165.0, 1.0, 330.0));
                assert_eq!(r.material, 'w');
                ('z', val(r.k))
            }
            Side::XZ(r) => {
                assert_eq!((val(r.x0), val(r.x1), val(r.z0), val(r.z1)), (0.0, 165.0, 2.0, 166.0));
                assert_eq!(r.material, 'w');
                ('y', val(r.k))
            }
            Side::YZ(r) => {
                assert_eq!((val(r.y0), val(r.y1), val(r.z0), val(r.z1)), (1.0, 330.0, 2.0, 166.0));
                assert_eq!(r.material, 'w');
                ('x', val(r.k))
            }
        })
        .collect();
    assert_eq!(
        planes,
        vec![('z', 166.0), ('z', 2.0), ('y', 330.0), ('y', 1.0), ('x', 165.0), ('x', 0.0)]
    );
    let bb = b.bounding_box().unwrap();
    assert_eq!(bb, Aabb::new(point(0.0, 1.0, 2.0), point(165.0, 330.0, 166.0)));
}

#[test]
fn triangle_accepts_points_inside() {
    let (lo, hi) = (num(0.001), num(f64::INFINITY));
    let ok = |t: f64, u: f64, v: f64| Triangle::<()>::accepts(num(t), num(u), num(v), num(u + v), lo, hi);
    assert!(ok(1.0, 0.25, 0.25));
    assert!(ok(1.0, 0.0, 0.0));
    assert!(ok(1.0, 0.5, 0.5));
    assert!(ok(1.0, 1.0, 0.0));
    assert!(!ok(1.0, 0.75, 0.5));
    assert!(!ok(1.0, -0.1, 0.5));
    assert!(!ok(1.0, 0.5, -0.1));
    assert!(!ok(0.0, 0.25, 0.25));
    assert!(!Triangle::<()>::accepts(num(5.0), num(0.2), num(0.2), num(0.4), lo, num(4.0)));
    let tri = Triangle::new(point(0.0, 0.0, 0.0), point(1.0, 0.0, 0.0), point(0.0, 1.0, 0.0), point(0.0, 0.0, 1.0), 3u8);
    assert_eq!((val(tri.a.x), val(tri.b.y), val(tri.normal.z), tri.material), (1.0, 1.0, 1.0, 3));
}

#[test]
fn medium_clips_to_the_stretch_and_the_origin() {
    let inside = |e: f64, l: f64, lo: f64, hi: f64| {
        ConstantMedium::<(), ()>::inside(num(e), num(l), num(lo), num(hi))
            .map(|r| (val(r.t_min), val(r.t_max)))
    };
    assert_eq!(inside(2.0, 5.0, 0.001, f64::INFINITY), Some((2.0, 5.0)));
    assert_eq!(inside(-3.0, 5.0, f64::NEG_INFINITY, f64::INFINITY), Some((0.0, 5.0)));
    assert_eq!(inside(-3.0, 5.0, 0.001, 4.0), Some((0.001, 4.0)));
    assert_eq!(inside(2.0, 5.0, 6.0, 9.0), None);
    assert_eq!(inside(2.0, 5.0, 0.0, 2.0), None);
    assert_eq!(inside(-5.0, -2.0, f64::NEG_INFINITY, f64::INFINITY), Some((0.0, -2.0)));
    assert!(ConstantMedium::<(), ()>::scatters(num(1.0), num(1.0)));
    assert!(ConstantMedium::<(), ()>::scatters(num(0.5), num(1.0)));
    assert!(!ConstantMedium::<(), ()>::scatters(num(1.5), num(1.0)));
    let m = ConstantMedium::new('b', 'p', num(-100.0));
    assert_eq!((m.boundary, m.phase_function, val(m.neg_inv_density)), ('b', 'p', -100.0));
}

#[test]
fn rotate_extent_is_the_box_round_the_turned_corners() {
    let inner = Aabb::new(point(0.0, 0.0, 0.0), point(165.0, 330.0, 165.0));
    let theta = 15.0f64.to_radians();
    let (sin, cos) = (theta.sin(), theta.cos());
    let mut corners = Vec::new();
    for x in [0.0, 165.0] {
        for z in [0.0, 165.0] {
            corners.push(Turned { x: num(cos * x + sin * z), z: num(-sin * x + cos * z) });
        }
    }
    let bb = RotateY::<()>::extent(&inner, &corners);
    assert_eq!((val(bb.minimum.y), val(bb.maximum.y)), (0.0, 330.0));
    assert_eq!(val(bb.minimum.x), 0.0);
    assert_eq!(val(bb.maximum.x), cos * 165.0 + sin * 165.0);
    assert_eq!(val(bb.minimum.z), -sin * 165.0);
    assert_eq!(val(bb.maximum.z), cos * 165.0);
    let none = RotateY::<()>::extent(&inner, &Vec::new());
    assert_eq!((val(none.minimum.x), val(none.maximum.x)), (f64::INFINITY, f64::NEG_INFINITY));
    let r = RotateY::new('o', num(sin), num(cos), Some(bb));
    assert_eq!((r.obj, val(r.sin_theta), val(r.cos_theta), r.bbox), ('o', sin, cos, Some(bb)));
    let t = Translate::new('o', Vec3::new(num(265.0), num(0.0), num(295.0)));
    assert_eq!((t.obj, val(t.offset.x), val(t.offset.z)), ('o', 265.0, 295.0));
}

#[test]
fn hit_record_turns_the_normal_towards_the_ray() {
    let n = Vec3::new(num(0.0), num(1.0), num(0.0));
    let front = HitRecord::new(point(1.0, 2.0, 3.0), num(4.0), num(0.1), num(0.2), num(-0.5), n, 'm');
    assert!(front.front_face);
    assert_eq!(val(front.normal.y), 1.0);
    assert_eq!((val(front.t), val(front.u), val(front.v), front.mat_ptr), (4.0, 0.1, 0.2, 'm'));
    assert_eq!(val(front.p.z), 3.0);
    let back = HitRecord::new(point(1.0, 2.0, 3.0), num(4.0), num(0.1), num(0.2), num(0.5), n, 'm');
    assert!(!back.front_face);
    assert_eq!(val(back.normal.y), -1.0);
    let along = HitRecord::new(point(1.0, 2.0, 3.0), num(4.0), num(0.1), num(0.2), num(0.0), n, 'm');
    assert!(!along.front_face);
}

#[test]
fn flip_face_negates_the_flag_only() {
    let flip = FlipFace::new(5usize);
    let n = Vec3::new(num(0.0), num(-1.0), num(0.0));
    let probe = |obj: &usize, a: Scalar, b: Scalar| {
        if val(a) <= 2.0 && 2.0 <= val(b) {
            Some(HitRecord::new(point(0.0, 554.0, 0.0), num(2.0), num(0.5), num(0.5), num(1.0), n, *obj))
        } else {
            None
        }
    };
    let rec = flip.hit(&probe, num(0.001), num(f64::INFINITY)).unwrap();
    assert!(rec.front_face);
    assert_eq!((val(rec.t), val(rec.normal.y), rec.mat_ptr), (2.0, 1.0, 5));
    assert_eq!((val(rec.p.y), val(rec.u), val(rec.v)), (554.0, 0.5, 0.5));
    assert!(flip.hit(&probe, num(0.001), num(1.0)).is_none());
}

#[test]
fn mesh_of_triangles_is_taken() {
    let polys = vec![vec![0, 1, 2], vec![2, 1, 3]];
    let list = triangles(&polys, 4).unwrap();
    assert_eq!(
        list,
        vec![Corners { first: 0, second: 1, third: 2 }, Corners { first: 2, second: 1, third: 3 }]
    );
    assert_eq!(triangles(&Vec::new(), 0), Ok(Vec::new()));
}

#[test]
fn mesh_with_another_polygon_is_refused() {
    let polys = vec![vec![0, 1, 2], vec![0, 1, 2, 3], vec![0, 1]];
    assert_eq!(triangles(&polys, 4), Err(MeshError::NotTriangle { polygon: 1 }));
    let polys = vec![vec![0, 1, 2], vec![0, 1, 4], vec![0]];
    assert_eq!(triangles(&polys, 4), Err(MeshError::MissingVertex { polygon: 1 }));
    let polys = vec![vec![], vec![0, 1, 4]];
    assert_eq!(triangles(&polys, 4), Err(MeshError::NotTriangle { polygon: 0 }));
}
