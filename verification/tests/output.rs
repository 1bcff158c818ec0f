use raytracing::opt::{Opt, SceneSelector};
use raytracing::background::{dark, sky, BackgroundEnum, Gradation, SolidBackground};
use raytracing::output::{ppm_header, ppm_image, ppm_pixel, push_decimal, Rgb};
use raytracing::texture::noise::{Perlin, POINT_COUNT};
use raytracing::{Color, Random, Scalar};

fn num(x: f64) -> Scalar {
    Scalar::from_bits(x.to_bits()).unwrap()
}

fn text(bytes: Vec<u8>) -> String {
    String::from_utf8(bytes).unwrap()
}

#[test]
fn ppm_header_has_three_lines() {
    assert_eq!(text(ppm_header(600, 400)), "P3\n600 400\n255\n");
    assert_eq!(text(ppm_header(1, 1)), "P3\n1 1\n255\n");
    assert_eq!(text(ppm_header(0, 0)), "P3\n0 0\n255\n");
    assert_eq!(
        text(ppm_header(usize::MAX, 10)),
        format!("P3\n{} 10\n255\n", usize::MAX)
    );
}

#[test]
fn ppm_pixel_is_three_numbers() {
    assert_eq!(text(ppm_pixel(0, 0, 0)), "0 0 0");
    assert_eq!(text(ppm_pixel(255, 128, 7)), "255 128 7");
    assert_eq!(text(ppm_pixel(10, 100, 99)), "10 100 99");
}

#[test]
fn push_decimal_appends_the_digits() {
    let mut out = b"n=".to_vec();
    push_decimal(&mut out, 9070);
    assert_eq!(text(out), "n=9070");
    for n in [0usize, 9, 10, 11, 99, 100, 255, 1000, 65535, 123456789] {
        let mut out = Vec::new();
        push_decimal(&mut out, n);
        assert_eq!(text(out), format!("{}", n));
    }
}

#[test]
fn scene_is_found_by_its_name() {
    assert_eq!(SceneSelector::from_name("random"), Some(SceneSelector::Random));
    assert_eq!(SceneSelector::from_name("two-spheres"), Some(SceneSelector::TwoSpheres));
    assert_eq!(SceneSelector::from_name("two-perlin-spheres"), Some(SceneSelector::TwoPerlinSpheres));
    assert_eq!(SceneSelector::from_name("earth"), Some(SceneSelector::Earth));
    assert_eq!(SceneSelector::from_name("simple-light"), Some(SceneSelector::SimpleLight));
    assert_eq!(SceneSelector::from_name("cornell-box"), Some(SceneSelector::CornellBox));
    assert_eq!(SceneSelector::from_name("cornell-smoke"), Some(SceneSelector::CornellSmoke));
    assert_eq!(SceneSelector::from_name("final-scene"), Some(SceneSelector::FinalScene));
    assert_eq!(SceneSelector::from_name("triangle"), Some(SceneSelector::Triangle));
    assert_eq!(SceneSelector::from_name("teapot"), Some(SceneSelector::Teapot));
}

#[test]
fn scene_name_ignores_case_and_nothing_else() {
    assert_eq!(SceneSelector::from_name("Cornell-Box"), Some(SceneSelector::CornellBox));
    assert_eq!(SceneSelector::from_name("EARTH"), Some(SceneSelector::Earth));
    assert_eq!(SceneSelector::from_name(""), None);
    assert_eq!(SceneSelector::from_name("earth "), None);
    assert_eq!(SceneSelector::from_name("cornellbox"), None);
    assert_eq!(SceneSelector::from_name("cornell_box"), None);
    assert_eq!(SceneSelector::from_name("teapots"), None);
    assert_eq!(SceneSelector::from_name("t\u{e9}apot"), None);
}

#[test]
fn scene_name_round_trip() {
    for scene in [
        SceneSelector::Random,
        SceneSelector::TwoSpheres,
        SceneSelector::TwoPerlinSpheres,
        SceneSelector::Earth,
        SceneSelector::SimpleLight,
        SceneSelector::CornellBox,
        SceneSelector::CornellSmoke,
        SceneSelector::FinalScene,
        SceneSelector::Triangle,
        SceneSelector::Teapot,
    ] {
        assert_eq!(SceneSelector::from_name(scene.name()), Some(scene));
    }
}

#[test]
fn options_default() {
    let opt = Opt::default();
    assert_eq!(opt.image_width, 600);
    assert_eq!(opt.samples_per_pixel, 64);
    assert_eq!(opt.scene, SceneSelector::Random);
}

#[test]
fn lattice_place_wraps_round() {
    assert_eq!(POINT_COUNT, 256);
    assert_eq!(Perlin::place(0, 0), 0);
    assert_eq!(Perlin::place(0, 1), 1);
    assert_eq!(Perlin::place(255, 1), 0);
    assert_eq!(Perlin::place(256, 0), 0);
    assert_eq!(Perlin::place(-1, 0), 255);
    assert_eq!(Perlin::place(-1, 1), 0);
    assert_eq!(Perlin::place(-257, 0), 255);
    assert_eq!(Perlin::place(1000, 1), 233);
    assert_eq!(Perlin::place(i64::MAX, 1), 0);
    assert_eq!(Perlin::place(i64::MIN, 0), 0);
}

#[test]
fn lattice_wants_all_its_values() {
    let mut rng = Random::default();
    assert!(Perlin::new(vec![num(0.5); 255], &mut rng).is_none());
    assert!(Perlin::new(Vec::new(), &mut rng).is_none());
    assert!(Perlin::new(vec![num(0.5); 256], &mut rng).is_some());
}

#[test]
fn lattice_corner_is_one_of_the_values() {
    let mut rng = Random::default();
    let values: Vec<Scalar> = (0..256).map(|i| num(i as f64)).collect();
    let perlin = Perlin::new(values, &mut rng).unwrap();
    let mut seen = [false; 256];
    for i in -300i64..300 {
        let v = perlin.corner(i, 2 * i, -i, 1, 0, 1);
        let n = f64::from_bits(v.to_bits());
        assert!(n >= 0.0 && n < 256.0 && n.fract() == 0.0);
        seen[n as usize] = true;
        // Grid points one period apart hold the same value.
        assert_eq!(perlin.corner(i + 256, 2 * i, -i - 512, 1, 0, 1), v);
    }
    assert!(seen.iter().filter(|s| **s).count() > 100);
}

#[test]
fn ppm_image_is_header_and_pixel_lines() {
    let rows = vec![
        vec![Rgb { r: 255, g: 0, b: 0 }, Rgb { r: 0, g: 255, b: 0 }],
        vec![Rgb { r: 0, g: 0, b: 255 }, Rgb { r: 12, g: 34, b: 56 }],
        vec![Rgb { r: 1, g: 2, b: 3 }, Rgb { r: 100, g: 100, b: 100 }],
    ];
    let out = text(ppm_image(2, &rows).unwrap());
    assert_eq!(
        out,
        "P3\n2 3\n255\n255 0 0\n0 255 0\n0 0 255\n12 34 56\n1 2 3\n100 100 100\n"
    );
    assert_eq!(text(ppm_image(7, &Vec::new()).unwrap()), "P3\n7 0\n255\n");
}

#[test]
fn ppm_image_wants_rows_of_one_width() {
    let p = Rgb { r: 1, g: 1, b: 1 };
    assert!(ppm_image(2, &vec![vec![p, p], vec![p]]).is_none());
    assert!(ppm_image(3, &vec![vec![p, p]]).is_none());
    assert!(ppm_image(0, &vec![vec![], vec![]]).is_some());
}

#[test]
fn backgrounds_sky_and_dark() {
    let dec = |s: Scalar| f64::from_bits(s.to_bits());
    match sky() {
        BackgroundEnum::Gradation(g) => {
            assert_eq!((dec(g.bottom.0.x), dec(g.bottom.0.y), dec(g.bottom.0.z)), (1.0, 1.0, 1.0));
            assert_eq!((dec(g.top.0.x), dec(g.top.0.y), dec(g.top.0.z)), (0.5, 0.7, 1.0));
        }
        _ => panic!("the sky is a gradation"),
    }
    match dark() {
        BackgroundEnum::Solid(s) => assert_eq!(s.value(), Color::default()),
        _ => panic!("darkness is one colour"),
    }
    let red = Color::new(num(1.0), num(0.0), num(0.0));
    assert_eq!(SolidBackground::new(red).value(), red);
    let g = Gradation::new(red, Color::default());
    assert_eq!((g.bottom, g.top), (red, Color::default()));
}
