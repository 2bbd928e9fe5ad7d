use raytracer::camera::{Camera, RenderSettings};
use raytracer::color::{black, convert_color, linear_to_gamma, quantize, white};
use raytracer::fixed::{Fixed, ONE_RAW};
use raytracer::hittable::hittable_list::HittableList;
use raytracer::hittable::sphere::Sphere;
use raytracer::hittable::Hittable;
use raytracer::interval::Interval;
use raytracer::material::dielectric::Dielectric;
use raytracer::material::lambertian::Lambertian;
use raytracer::material::metal::Metal;
use raytracer::material::Surface;
use raytracer::random::{random_f64, random_in_unit_disk, random_unit_vector, Sampler};
use raytracer::ray::Ray;
use raytracer::vec3::Vec3;

fn fx(x: f64) -> Fixed {
    Fixed::from_raw((x * 4294967296.0).round() as i64)
}

fn fl(x: Fixed) -> f64 {
    x.value() as f64 / 4294967296.0
}

fn v(x: f64, y: f64, z: f64) -> Vec3 {
    Vec3::new(fx(x), fx(y), fx(z))
}

fn raws(a: Vec3) -> (i64, i64, i64) {
    (a.x.raw, a.y.raw, a.z.raw)
}

fn close(a: Vec3, x: f64, y: f64, z: f64, tol: f64) -> bool {
    (fl(a.x) - x).abs() <= tol && (fl(a.y) - y).abs() <= tol && (fl(a.z) - z).abs() <= tol
}

fn settings(image_width: u32, samples_per_pixel: u32, max_depth: u32) -> RenderSettings {
    RenderSettings {
        aspect_ratio: Fixed::from_ratio(16, 9),
        image_width,
        samples_per_pixel,
        max_depth,
    }
}

/// A camera at the origin that looks down the negative z axis, with a
/// field of view of 90 degrees and a lens that is a point.
fn plain_camera(image_width: u32, samples_per_pixel: u32, max_depth: u32) -> Camera {
    Camera::new(
        settings(image_width, samples_per_pixel, max_depth),
        v(0.0, 0.0, 0.0),
        v(0.0, 0.0, -1.0),
        v(0.0, 1.0, 0.0),
        fx(1.0),
        fx(0.0),
        fx(1.0),
    )
}

fn grey() -> Surface {
    Surface::Lambertian(Lambertian::new(v(0.5, 0.5, 0.5)))
}

/// A small sphere in front of the camera that rests on a very large one.
fn two_spheres() -> HittableList<Sphere> {
    HittableList::new(vec![
        Sphere { center: v(0.0, 0.0, -1.0), radius: fx(0.5), material: grey() },
        Sphere { center: v(0.0, -100.5, -1.0), radius: fx(100.0), material: grey() },
    ])
}

#[test]
fn white_is_brightest_for_any_sample_count() {
    for &n in [1u32, 2, 3, 7, 10, 100, 200, 1000, 65_536, 1_000_000, 2_147_483_647, 2_147_483_648, u32::MAX]
        .iter()
    {
        let total = Fixed::from_int(n as i64);
        assert_eq!(convert_color(Vec3::new(total, total, total), n), [255, 255, 255], "n = {}", n);
    }
    assert_eq!(convert_color(white(), 1), [255, 255, 255]);
}

#[test]
fn convert_color_takes_the_root_of_the_mean() {
    assert_eq!(convert_color(black(), 1), [0, 0, 0]);
    assert_eq!(convert_color(black(), 50), [0, 0, 0]);
    // sqrt(0.25) = 0.5, and 0.5 * 256 = 128.
    assert_eq!(convert_color(v(0.25, 0.25, 0.25), 1), [128, 128, 128]);
    assert_eq!(convert_color(v(1.0, 1.0, 1.0), 4), [128, 128, 128]);
    // sqrt(0.0625) = 0.25; sqrt(0.5625) = 0.75; sqrt(0.01) = 0.1.
    assert_eq!(convert_color(v(0.0625, 0.5625, 0.01), 1), [64, 192, 25]);
    assert_eq!(convert_color(v(0.625, 5.625, 0.1), 10), [64, 192, 25]);
}

#[test]
fn convert_color_holds_channels_inside_the_range() {
    assert_eq!(convert_color(v(-1.0, 4.0, 100.0), 1), [0, 255, 255]);
    assert_eq!(
        convert_color(Vec3::new(Fixed::lowest(), Fixed::highest(), Fixed::zero()), 3),
        [0, 255, 0]
    );
    // No samples at all: what is positive is unbounded, and nothing stays nothing.
    assert_eq!(convert_color(v(0.5, 0.0, -0.5), 0), [255, 0, 0]);
}

#[test]
fn quantize_scales_by_256_and_rounds_down() {
    assert_eq!(quantize(fx(0.0)), 0);
    assert_eq!(quantize(fx(0.5)), 128);
    assert_eq!(quantize(fx(1.0 / 256.0)), 1);
    assert_eq!(quantize(Fixed::from_raw(fx(1.0 / 256.0).raw - 1)), 0);
    assert_eq!(quantize(Fixed::from_ratio(999, 1000)), 255);
    assert_eq!(quantize(fx(0.9999)), 255);
    assert_eq!(quantize(fx(255.0 / 256.0)), 255);
    assert_eq!(quantize(Fixed::from_raw(fx(255.0 / 256.0).raw - 1)), 254);
    assert_eq!(quantize(fx(-0.1)), 0);
    assert_eq!(quantize(Fixed::highest()), 255);
}

#[test]
fn gamma_is_the_square_root_by_channel() {
    assert_eq!(raws(linear_to_gamma(v(4.0, 0.25, 1.0))), raws(v(2.0, 0.5, 1.0)));
    assert_eq!(raws(linear_to_gamma(v(-4.0, 0.0, 9.0))), raws(v(0.0, 0.0, 3.0)));
}

#[test]
fn image_height_follows_the_aspect_ratio() {
    assert_eq!(plain_camera(720, 1, 1).image_height, 405);
    assert_eq!(plain_camera(100, 1, 1).image_height, 56);
    assert_eq!(plain_camera(400, 1, 1).image_height, 225);
    assert_eq!(plain_camera(1, 1, 1).image_height, 1);
    assert_eq!(plain_camera(0, 1, 1).image_height, 1);
    assert_eq!(plain_camera(16, 1, 1).image_height, 9);
    let square = Camera::new(
        RenderSettings { aspect_ratio: fx(1.0), image_width: 300, samples_per_pixel: 1, max_depth: 1 },
        v(0.0, 0.0, 0.0),
        v(0.0, 0.0, -1.0),
        v(0.0, 1.0, 0.0),
        fx(1.0),
        fx(0.0),
        fx(1.0),
    );
    assert_eq!(square.image_height, 300);
    let wide = Camera::new(
        RenderSettings { aspect_ratio: fx(100.0), image_width: 10, samples_per_pixel: 1, max_depth: 1 },
        v(0.0, 0.0, 0.0),
        v(0.0, 0.0, -1.0),
        v(0.0, 1.0, 0.0),
        fx(1.0),
        fx(0.0),
        fx(1.0),
    );
    assert_eq!(wide.image_height, 1);
}

#[test]
fn camera_new_keeps_its_settings() {
    let cam = plain_camera(100, 7, 13);
    assert_eq!(cam.image_width, 100);
    assert_eq!(cam.samples_per_pixel, 7);
    assert_eq!(cam.max_depth, 13);
    assert_eq!(cam.aspect_ratio.raw, Fixed::from_ratio(16, 9).raw);
    assert_eq!(cam.focus_dist.raw, ONE_RAW);
    assert_eq!(cam.defocus_tan.raw, 0);
    assert_eq!(raws(cam.center), (0, 0, 0));
}

#[test]
fn camera_new_lays_out_the_viewport() {
    let cam = plain_camera(100, 1, 1);
    // The viewport is 2 high and 32 / 9 wide, one unit in front.
    let width = 2.0 * 16.0 / 9.0;
    let du = width / 100.0;
    let dv = 2.0 / 56.0;
    assert!(close(cam.pixel_delta_u, du, 0.0, 0.0, 1e-8));
    assert!(close(cam.pixel_delta_v, 0.0, -dv, 0.0, 1e-8));
    assert!(close(cam.pixel00_loc, -width / 2.0 + du / 2.0, 1.0 - dv / 2.0, -1.0, 1e-8));
    assert_eq!(raws(cam.defocus_disk_u), (0, 0, 0));
    assert_eq!(raws(cam.defocus_disk_v), (0, 0, 0));
}

#[test]
fn camera_new_builds_an_orthonormal_basis() {
    // Looking along the x axis from (-2, 0, 0), 10 units to the plane in focus.
    let cam = Camera::new(
        settings(160, 1, 1),
        v(-2.0, 0.0, 0.0),
        v(3.0, 0.0, 0.0),
        v(0.0, 1.0, 0.0),
        fx(0.5),
        fx(0.1),
        fx(10.0),
    );
    assert_eq!(cam.image_height, 90);
    // w = (-1, 0, 0), u = up x w = (0, 0, 1), v = w x u = (0, 1, 0).
    let height = 2.0 * 0.5 * 10.0;
    let width = height * 16.0 / 9.0;
    assert!(close(cam.pixel_delta_u, 0.0, 0.0, width / 160.0, 1e-7));
    assert!(close(cam.pixel_delta_v, 0.0, -height / 90.0, 0.0, 1e-7));
    assert!(close(
        cam.pixel00_loc,
        8.0,
        height / 2.0 - height / 180.0,
        -width / 2.0 + width / 320.0,
        1e-6
    ));
    assert!(close(cam.defocus_disk_u, 0.0, 0.0, 1.0, 1e-8));
    assert!(close(cam.defocus_disk_v, 0.0, 1.0, 0.0, 1e-8));
    assert_eq!(raws(cam.center), raws(v(-2.0, 0.0, 0.0)));
}

#[test]
fn ray_through_the_middle_of_a_pixel() {
    let cam = plain_camera(100, 1, 1);
    let half = Fixed::from_ratio(1, 2);
    let lens = Vec3::zero();
    let first = cam.ray_through(0, 0, half, half, lens);
    assert_eq!(raws(first.origin), (0, 0, 0));
    assert_eq!(raws(first.direction), raws(cam.pixel00_loc));
    let other = cam.ray_through(3, 2, half, half, lens);
    let expected = cam
        .pixel00_loc
        .add(cam.pixel_delta_u.scale(Fixed::from_int(3)))
        .add(cam.pixel_delta_v.scale(Fixed::from_int(2)));
    assert_eq!(raws(other.direction), raws(expected));
    // The corner of the pixel.
    let corner = cam.ray_through(3, 2, Fixed::zero(), Fixed::zero(), lens);
    let shifted = expected.add(
        cam.pixel_delta_u.scale(half.neg()).add(cam.pixel_delta_v.scale(half.neg())),
    );
    assert_eq!(raws(corner.direction), raws(shifted));
}

#[test]
fn ray_through_a_lens() {
    let cam = Camera::new(
        settings(100, 1, 1),
        v(0.0, 0.0, 0.0),
        v(0.0, 0.0, -1.0),
        v(0.0, 1.0, 0.0),
        fx(1.0),
        fx(0.25),
        fx(2.0),
    );
    // The lens has radius 2 * 0.25 = 0.5 along both axes.
    assert_eq!(raws(cam.defocus_disk_u), raws(v(0.5, 0.0, 0.0)));
    assert_eq!(raws(cam.defocus_disk_v), raws(v(0.0, 0.5, 0.0)));
    let half = Fixed::from_ratio(1, 2);
    let ray = cam.ray_through(10, 20, half, half, v(0.5, -0.25, 0.0));
    assert_eq!(raws(ray.origin), raws(v(0.25, -0.125, 0.0)));
    let target = cam
        .pixel00_loc
        .add(cam.pixel_delta_u.scale(Fixed::from_int(10)))
        .add(cam.pixel_delta_v.scale(Fixed::from_int(20)));
    assert_eq!(raws(ray.direction), raws(target.sub(ray.origin)));
    // Through the middle of the lens the ray starts at the camera's center.
    let central = cam.ray_through(10, 20, half, half, Vec3::zero());
    assert_eq!(raws(central.origin), (0, 0, 0));
}

#[test]
fn get_ray_stays_inside_its_pixel() {
    let cam = plain_camera(100, 1, 1);
    let mut rng = Sampler::from_seed(9);
    let mut twin = Sampler::from_seed(9);
    let du = fl(cam.pixel_delta_u.x);
    let dv = fl(cam.pixel_delta_v.y);
    for k in 0..500u32 {
        let (i, j) = (k % 100, k % 56);
        let ray = cam.get_ray(i, j, &mut rng);
        assert_eq!(raws(ray.origin), (0, 0, 0));
        let cx = fl(cam.pixel00_loc.x) + i as f64 * du;
        let cy = fl(cam.pixel00_loc.y) + j as f64 * dv;
        assert!((fl(ray.direction.x) - cx).abs() <= du.abs() / 2.0 + 1e-8);
        assert!((fl(ray.direction.y) - cy).abs() <= dv.abs() / 2.0 + 1e-8);
        assert_eq!(ray.direction.z.raw, fx(-1.0).raw);
        // The same ray, from the same two draws.
        let jitter_u = random_f64(&mut twin);
        let jitter_v = random_f64(&mut twin);
        let again = cam.ray_through(i, j, jitter_u, jitter_v, Vec3::zero());
        assert_eq!(raws(ray.direction), raws(again.direction));
    }
}

#[test]
fn get_ray_starts_on_the_lens() {
    let cam = Camera::new(
        settings(100, 1, 1),
        v(1.0, 2.0, 3.0),
        v(1.0, 2.0, 2.0),
        v(0.0, 1.0, 0.0),
        fx(1.0),
        fx(0.25),
        fx(2.0),
    );
    let mut rng = Sampler::from_seed(10);
    let mut twin = Sampler::from_seed(10);
    let mut off_center = 0;
    for _ in 0..500 {
        let ray = cam.get_ray(5, 6, &mut rng);
        let off = ray.origin.sub(cam.center);
        assert_eq!(off.z.raw, 0);
        assert!(fl(off.dot(off)) < 0.25 + 1e-8);
        if off.x.raw != 0 || off.y.raw != 0 {
            off_center += 1;
        }
        let jitter_u = random_f64(&mut twin);
        let jitter_v = random_f64(&mut twin);
        let lens = random_in_unit_disk(&mut twin);
        let again = cam.ray_through(5, 6, jitter_u, jitter_v, lens);
        assert_eq!(raws(ray.origin), raws(again.origin));
        assert_eq!(raws(ray.direction), raws(again.direction));
    }
    assert!(off_center > 490);
}

#[test]
fn background_blends_from_white_to_sky() {
    let up = Ray { origin: v(0.0, 0.0, 0.0), direction: v(0.0, 3.0, 0.0) };
    assert_eq!(
        raws(Camera::background(&up)),
        (Fixed::from_ratio(1, 2).raw, Fixed::from_ratio(7, 10).raw, ONE_RAW)
    );
    let down = Ray { origin: v(0.0, 0.0, 0.0), direction: v(0.0, -0.5, 0.0) };
    assert_eq!(raws(Camera::background(&down)), (ONE_RAW, ONE_RAW, ONE_RAW));
    let level = Ray { origin: v(0.0, 0.0, 0.0), direction: v(1.0, 0.0, -1.0) };
    assert!(close(Camera::background(&level), 0.75, 0.85, 1.0, 1e-9));
    let slanted = Ray { origin: v(5.0, 5.0, 5.0), direction: v(0.0, 0.6, -0.8) };
    // a = 0.5 * (0.6 + 1) = 0.8.
    assert!(close(Camera::background(&slanted), 0.6, 0.76, 1.0, 1e-9));
}

#[test]
fn trace_with_no_depth_left_is_black() {
    let world = two_spheres();
    let empty: HittableList<Sphere> = HittableList::new(Vec::new());
    let mut rng = Sampler::from_seed(1);
    let rays = [
        Ray { origin: v(0.0, 0.0, 0.0), direction: v(0.0, 0.0, -1.0) },
        Ray { origin: v(0.0, 0.0, 0.0), direction: v(0.0, 1.0, 0.0) },
        Ray { origin: v(0.0, 0.0, 0.0), direction: v(0.0, -1.0, 0.0) },
        Ray { origin: v(7.0, -3.0, 2.0), direction: v(0.0, 0.0, 0.0) },
    ];
    for r in rays.iter() {
        assert_eq!(raws(Camera::ray_color(*r, 0, &world, &mut rng)), (0, 0, 0));
        assert_eq!(raws(Camera::ray_color(*r, 0, &empty, &mut rng)), (0, 0, 0));
    }
}

#[test]
fn trace_of_a_miss_is_the_background() {
    let world = two_spheres();
    let mut rng = Sampler::from_seed(1);
    let up = Ray { origin: v(0.0, 0.0, 0.0), direction: v(0.1, 1.0, -0.3) };
    for depth in [1u32, 2, 50] {
        assert_eq!(
            raws(Camera::ray_color(up, depth, &world, &mut rng)),
            raws(Camera::background(&up))
        );
    }
}

#[test]
fn trace_of_a_hit_with_one_bounce_is_black() {
    let world = two_spheres();
    let mut rng = Sampler::from_seed(1);
    let ahead = Ray { origin: v(0.0, 0.0, 0.0), direction: v(0.0, 0.0, -1.0) };
    let down = Ray { origin: v(0.0, 0.0, 0.0), direction: v(0.0, -1.0, -0.2) };
    for _ in 0..20 {
        assert_eq!(raws(Camera::ray_color(ahead, 1, &world, &mut rng)), (0, 0, 0));
        assert_eq!(raws(Camera::ray_color(down, 1, &world, &mut rng)), (0, 0, 0));
    }
}

#[test]
fn trace_filters_the_light_of_the_scattered_ray() {
    let albedo = v(0.5, 0.25, 0.125);
    let m = Lambertian::new(albedo);
    let world = HittableList::new(vec![Sphere {
        center: v(0.0, 0.0, -2.0),
        radius: fx(1.0),
        material: Surface::Lambertian(m),
    }]);
    let ahead = Ray { origin: v(0.0, 0.0, 0.0), direction: v(0.0, 0.0, -1.0) };
    let forward = Interval::new(Fixed::from_ratio(1, 1000), Fixed::highest());
    let rec = world.hit(&ahead, forward).unwrap();
    let mut checked = 0;
    for seed in 0..50u64 {
        let mut rng = Sampler::from_seed(seed);
        let mut twin = Sampler::from_seed(seed);
        let got = Camera::ray_color(ahead, 2, &world, &mut rng);
        let unit = random_unit_vector(&mut twin);
        let (attenuation, scattered) = m.scatter_with(&rec, unit);
        if world.hit(&scattered, forward).is_none() {
            let expected = attenuation.mul_element_wise(Camera::background(&scattered));
            assert_eq!(raws(got), raws(expected));
            checked += 1;
        } else {
            assert_eq!(raws(got), (0, 0, 0));
        }
    }
    assert!(checked > 25);
}

#[test]
fn trace_through_mirror_and_glass_ends() {
    let world = HittableList::new(vec![
        Sphere {
            center: v(-1.0, 0.0, -2.0),
            radius: fx(0.5),
            material: Surface::Dielectric(Dielectric::new(fx(1.5))),
        },
        Sphere {
            center: v(-1.0, 0.0, -2.0),
            radius: fx(-0.4),
            material: Surface::Dielectric(Dielectric::new(fx(1.5))),
        },
        Sphere {
            center: v(1.0, 0.0, -2.0),
            radius: fx(0.5),
            material: Surface::Metal(Metal::new(v(0.8, 0.6, 0.2), fx(0.3))),
        },
        Sphere { center: v(0.0, -100.5, -2.0), radius: fx(100.0), material: grey() },
    ]);
    let mut rng = Sampler::from_seed(77);
    for k in 0..200 {
        let x = (k % 20) as f64 / 10.0 - 1.0;
        let y = (k / 20) as f64 / 10.0 - 0.5;
        let r = Ray { origin: v(0.0, 0.0, 0.0), direction: v(x, y, -1.0) };
        let c = Camera::ray_color(r, 50, &world, &mut rng);
        for channel in [c.x, c.y, c.z] {
            assert!(channel.raw >= 0 && channel.raw <= ONE_RAW);
        }
    }
}

#[test]
fn render_two_spheres_end_to_end() {
    let cam = plain_camera(100, 1, 1);
    assert_eq!(cam.image_height, 56);
    let world = two_spheres();
    let mut rng = Sampler::from_seed(2024);
    let image = cam.render(&world, &mut rng);
    assert_eq!(image.len(), 100 * 56 * 3);

    // With a single bounce a ray that hits brings back no light. The
    // pixel in the middle looks at the small sphere.
    let middle = (28 * 100 + 50) * 3;
    assert_eq!(&image[middle..middle + 3], &[0, 0, 0]);
    // The bottom row looks at the large sphere.
    let bottom = (55 * 100 + 50) * 3;
    assert_eq!(&image[bottom..bottom + 3], &[0, 0, 0]);

    // The rays of the top row hit nothing, so each of them takes two
    // draws, and the pixel is the background along the ray.
    let mut twin = Sampler::from_seed(2024);
    for i in 0..100u32 {
        let jitter_u = random_f64(&mut twin);
        let jitter_v = random_f64(&mut twin);
        let ray = cam.ray_through(i, 0, jitter_u, jitter_v, Vec3::zero());
        let expected = convert_color(Camera::background(&ray), 1);
        let at = (i as usize) * 3;
        assert_eq!(&image[at..at + 3], &expected);
        // The gradient, in floating point: the byte may differ by one.
        let d = ray.direction;
        let (x, y, z) = (fl(d.x), fl(d.y), fl(d.z));
        let a = 0.5 * (y / (x * x + y * y + z * z).sqrt() + 1.0);
        let sky = [1.0 - 0.5 * a, 1.0 - 0.3 * a, 1.0];
        for c in 0..3 {
            let byte = (256.0 * sky[c].sqrt().min(0.999)) as i32;
            assert!((byte - expected[c] as i32).abs() <= 1);
        }
    }
}

#[test]
fn render_is_repeatable() {
    let cam = plain_camera(40, 3, 5);
    let world = two_spheres();
    let a = cam.render(&world, &mut Sampler::from_seed(1));
    let b = cam.render(&world, &mut Sampler::from_seed(1));
    let c = cam.render(&world, &mut Sampler::from_seed(2));
    assert_eq!(a.len(), 40 * 22 * 3);
    assert_eq!(a, b);
    assert!(a != c);
}

#[test]
fn render_goes_row_by_row() {
    let cam = plain_camera(20, 2, 3);
    let world = two_spheres();
    let image = cam.render(&world, &mut Sampler::from_seed(5));
    let mut twin = Sampler::from_seed(5);
    let mut at = 0;
    for j in 0..cam.image_height {
        for i in 0..cam.image_width {
            let rgb = cam.pixel(i, j, &world, &mut twin);
            assert_eq!(&image[at..at + 3], &rgb);
            at += 3;
        }
    }
    assert_eq!(at, image.len());
}

#[test]
fn render_of_an_empty_image() {
    let cam = plain_camera(0, 1, 1);
    let world = two_spheres();
    assert!(cam.render(&world, &mut Sampler::from_seed(5)).is_empty());
}

#[test]
fn pixel_averages_its_samples() {
    let cam = plain_camera(100, 10, 1);
    let world = two_spheres();
    let mut rng = Sampler::from_seed(8);
    let mut twin = Sampler::from_seed(8);
    let rgb = cam.pixel(3, 0, &world, &mut rng);
    let mut sum = black();
    for _ in 0..10 {
        let ray = cam.get_ray(3, 0, &mut twin);
        sum = sum.add(Camera::ray_color(ray, 1, &world, &mut twin));
    }
    assert_eq!(rgb, convert_color(sum, 10));
    // No samples: the pixel is black.
    let none = plain_camera(100, 0, 1);
    assert_eq!(none.pixel(3, 0, &world, &mut rng), [0, 0, 0]);
}

#[test]
fn deeper_traces_are_brighter_on_the_ground() {
    let world = two_spheres();
    let shallow = plain_camera(30, 20, 1);
    let deep = plain_camera(30, 20, 10);
    let a = shallow.pixel(15, 15, &world, &mut Sampler::from_seed(3));
    let b = deep.pixel(15, 15, &world, &mut Sampler::from_seed(3));
    assert_eq!(a, [0, 0, 0]);
    assert!(b[0] > 50 && b[1] > 50 && b[2] > 50);
    assert!(b[2] >= b[0]);
}

#[test]
fn pixel_centers_step_by_the_deltas() {
    let cam = plain_camera(100, 1, 1);
    assert_eq!(raws(cam.pixel_center(0, 0)), raws(cam.pixel00_loc));
    let p = cam.pixel_center(7, 0);
    assert_eq!(p.x.raw, cam.pixel00_loc.x.raw + 7 * cam.pixel_delta_u.x.raw);
    assert_eq!(p.y.raw, cam.pixel00_loc.y.raw);
    let p = cam.pixel_center(0, 9);
    assert_eq!(p.y.raw, cam.pixel00_loc.y.raw + 9 * cam.pixel_delta_v.y.raw);
    assert_eq!(p.z.raw, fx(-1.0).raw);
}

#[test]
fn pixel_offsets_span_one_pixel() {
    let cam = plain_camera(100, 1, 1);
    let half = Fixed::from_ratio(1, 2);
    assert_eq!(raws(cam.pixel_offset(half, half)), (0, 0, 0));
    let corner = cam.pixel_offset(Fixed::zero(), Fixed::zero());
    assert_eq!(corner.x.raw, cam.pixel_delta_u.x.mul(half.neg()).raw);
    assert_eq!(corner.y.raw, cam.pixel_delta_v.y.mul(half.neg()).raw);
    let mut rng = Sampler::from_seed(21);
    let mut twin = Sampler::from_seed(21);
    for _ in 0..200 {
        let offset = cam.pixel_sample_square(&mut rng);
        assert!(offset.x.value().abs() <= cam.pixel_delta_u.x.value().abs() / 2 + 1);
        assert!(offset.y.value().abs() <= cam.pixel_delta_v.y.value().abs() / 2 + 1);
        assert_eq!(offset.z.raw, 0);
        let jitter_u = random_f64(&mut twin);
        let jitter_v = random_f64(&mut twin);
        assert_eq!(raws(offset), raws(cam.pixel_offset(jitter_u, jitter_v)));
    }
}

#[test]
fn lens_points_lie_on_the_disk() {
    let cam = Camera::new(
        settings(100, 1, 1),
        v(1.0, 2.0, 3.0),
        v(1.0, 2.0, 2.0),
        v(0.0, 1.0, 0.0),
        fx(1.0),
        fx(0.25),
        fx(2.0),
    );
    assert_eq!(raws(cam.lens_point(Vec3::zero())), raws(v(1.0, 2.0, 3.0)));
    assert_eq!(raws(cam.lens_point(v(1.0, 0.0, 0.0))), raws(v(1.5, 2.0, 3.0)));
    assert_eq!(raws(cam.lens_point(v(0.0, -0.5, 0.0))), raws(v(1.0, 1.75, 3.0)));
    // The third component of the disk sample does not matter.
    assert_eq!(raws(cam.lens_point(v(0.0, 0.0, 9.0))), raws(v(1.0, 2.0, 3.0)));
    let mut rng = Sampler::from_seed(22);
    let mut twin = Sampler::from_seed(22);
    for _ in 0..200 {
        let p = cam.defocus_disk_sample(&mut rng);
        let lens = random_in_unit_disk(&mut twin);
        assert_eq!(raws(p), raws(cam.lens_point(lens)));
    }
}
