//! The camera: where the rays start, and what color each of them brings
//! back.
use crate::color::{black, convert_color, spec_black, spec_convert_color, spec_white, white, Color};
use crate::hittable::HitRecord;
use crate::fixed::Fixed;
use crate::hittable::Hittable;
use crate::interval::Interval;
use crate::material::Material;
use crate::random::{
    drew_words, in_unit_sphere, is_first_in_disk, is_unit_draw, lemma_center_in_unit_sphere,
    lemma_disk_search_is_inside, lemma_drew_words_twice, lemma_words_stay, random_f64,
    random_in_unit_disk, spec_unit, Sampler,
};
use crate::ray::Ray;
use crate::vec3::Vec3;
use vstd::prelude::*;

verus! {

/// What a render is made with, apart from the scene and the view.
#[derive(Clone, Copy, Debug)]
pub struct RenderSettings {
    /// The width of the image over its height.
    pub aspect_ratio: Fixed,
    /// The number of pixels in a row.
    pub image_width: u32,
    /// The number of rays that are traced for each pixel.
    pub samples_per_pixel: u32,
    /// The number of surfaces that a ray may meet before it is given up.
    pub max_depth: u32,
}

/// A camera with a thin lens.
#[derive(Clone, Copy, Debug)]
pub struct Camera {
    pub aspect_ratio: Fixed,
    pub image_width: u32,
    pub samples_per_pixel: u32,
    pub max_depth: u32,
    /// The number of rows of pixels; at least one.
    pub image_height: u32,
    /// The place of the camera.
    pub center: Vec3,
    /// The middle of the pixel in the upper left corner.
    pub pixel00_loc: Vec3,
    /// The step from one pixel to the next in a row.
    pub pixel_delta_u: Vec3,
    /// The step from one row of pixels to the next.
    pub pixel_delta_v: Vec3,
    /// The tangent of half the angle of the lens as seen from the plane in
    /// focus. The lens is a point where it is not positive.
    pub defocus_tan: Fixed,
    /// The distance from the camera to the plane in focus.
    pub focus_dist: Fixed,
    /// The radius of the lens along the camera's horizontal axis.
    pub defocus_disk_u: Vec3,
    /// The radius of the lens along the camera's vertical axis.
    pub defocus_disk_v: Vec3,
}

/// The number of rows of an image: the width divided by the aspect ratio,
/// rounded down, and at least one.
pub open spec fn spec_image_height(image_width: u32, aspect_ratio: Fixed) -> u32 {
    let rows = Fixed::spec_from_int(image_width as int).spec_div(aspect_ratio).spec_to_int();
    if rows < 1 {
        1u32
    } else {
        rows as u32
    }
}

/// The parameters at which a ray is tested against the scene: from a
/// thousandth onward, so that a ray does not hit the surface it leaves.
pub open spec fn spec_trace_interval() -> Interval {
    Interval { min: Fixed::spec_from_ratio(1, 1000), max: Fixed::spec_highest() }
}

/// The color of the sky at the top.
pub open spec fn spec_sky() -> Color {
    Vec3 { x: Fixed::spec_from_ratio(1, 2), y: Fixed::spec_from_ratio(7, 10), z: Fixed::spec_one() }
}

/// The color that a ray brings back which hits nothing: white at the
/// horizon, blending into the color of the sky toward the top.
pub open spec fn spec_background(r: Ray) -> Color {
    let unit_direction = r.direction.spec_normalize();
    let a = Fixed::spec_from_ratio(1, 2).spec_mul(unit_direction.y.spec_add(Fixed::spec_one()));
    spec_white().spec_scale(Fixed::spec_one().spec_sub(a)).spec_add(spec_sky().spec_scale(a))
}

/// Whether `c` is a color that the ray `r` may bring back from `world` when
/// it may meet `depth` surfaces: black where `depth` is zero, the
/// background where it hits nothing, black where the surface that it hits
/// absorbs it, and else the color that the scattered ray may bring back
/// with one surface less, filtered by the surface.
#[verifier::opaque]
pub open spec fn may_color<H: Hittable>(world: &H, r: Ray, depth: nat, c: Color) -> bool
    decreases depth,
{
    if depth == 0 {
        c == spec_black()
    } else {
        match world.spec_hit(r, spec_trace_interval()) {
            Some(rec) => {
                ||| rec.mat.may_scatter(r, rec, None) && c == spec_black()
                ||| exists|attenuation: Color, scattered: Ray|
                    #![trigger rec.mat.may_scatter(r, rec, Some((attenuation, scattered)))]
                    rec.mat.may_scatter(r, rec, Some((attenuation, scattered))) && exists|
                        inner: Color,
                    |
                        #![trigger attenuation.spec_mul_element_wise(inner)]
                        may_color(world, scattered, (depth - 1) as nat, inner) && c
                            == attenuation.spec_mul_element_wise(inner)
            },
            None => c == spec_background(r),
        }
    }
}

/// The sum of `colors`, added up from the first.
pub open spec fn spec_sum(colors: Seq<Color>) -> Color
    decreases colors.len(),
{
    if colors.len() == 0 {
        spec_black()
    } else {
        spec_sum(colors.drop_last()).spec_add(colors.last())
    }
}

/// The bytes of the pixel with index `k` in an image that is stored pixel
/// by pixel, three bytes each.
pub open spec fn spec_pixel_bytes(image: Seq<u8>, k: int) -> Seq<u8> {
    image.subrange(3 * k, 3 * k + 3)
}

impl Camera {
    /// The camera that stands at `look_from` and looks at `look_at`, with
    /// `v_up` pointing upward in the image. `half_fov_tan` is the tangent of
    /// half the vertical field of view, `half_defocus_tan` the tangent of
    /// half the angle of the lens.
    pub open spec fn spec_new(
        settings: RenderSettings,
        look_from: Vec3,
        look_at: Vec3,
        v_up: Vec3,
        half_fov_tan: Fixed,
        half_defocus_tan: Fixed,
        focus_dist: Fixed,
    ) -> Camera {
        let image_height = spec_image_height(settings.image_width, settings.aspect_ratio);
        let viewport_height = Fixed::spec_from_int(2).spec_mul(half_fov_tan).spec_mul(focus_dist);
        let viewport_width = settings.aspect_ratio.spec_mul(viewport_height);
        let w = look_from.spec_sub(look_at).spec_normalize();
        let u = v_up.spec_cross(w).spec_normalize();
        let v = w.spec_cross(u);
        let viewport_u = u.spec_scale(viewport_width);
        let viewport_v = v.spec_neg().spec_scale(viewport_height);
        let pixel_delta_u = viewport_u.spec_div(Fixed::spec_from_int(settings.image_width as int));
        let pixel_delta_v = viewport_v.spec_div(Fixed::spec_from_int(image_height as int));
        let viewport_upper_left = look_from.spec_sub(w.spec_scale(focus_dist)).spec_sub(
            viewport_u.spec_div(Fixed::spec_from_int(2)),
        ).spec_sub(viewport_v.spec_div(Fixed::spec_from_int(2)));
        let defocus_radius = focus_dist.spec_mul(half_defocus_tan);
        Camera {
            aspect_ratio: settings.aspect_ratio,
            image_width: settings.image_width,
            samples_per_pixel: settings.samples_per_pixel,
            max_depth: settings.max_depth,
            image_height,
            center: look_from,
            pixel00_loc: viewport_upper_left.spec_add(
                pixel_delta_u.spec_add(pixel_delta_v).spec_scale(Fixed::spec_from_ratio(1, 2)),
            ),
            pixel_delta_u,
            pixel_delta_v,
            defocus_tan: half_defocus_tan,
            focus_dist,
            defocus_disk_u: u.spec_scale(defocus_radius),
            defocus_disk_v: v.spec_scale(defocus_radius),
        }
    }

    /// The offset of a sample from the middle of its pixel, where
    /// `jitter_u` and `jitter_v` in `[0, 1)` say how far across the pixel
    /// it lies.
    #[verifier::opaque]
    pub open spec fn spec_pixel_offset(self, jitter_u: Fixed, jitter_v: Fixed) -> Vec3 {
        let half = Fixed::spec_from_ratio(1, 2);
        self.pixel_delta_u.spec_scale(jitter_u.spec_sub(half)).spec_add(
            self.pixel_delta_v.spec_scale(jitter_v.spec_sub(half)),
        )
    }

    /// The point of the lens that belongs to the point `lens` of the unit
    /// disk.
    #[verifier::opaque]
    pub open spec fn spec_lens_point(self, lens: Vec3) -> Vec3 {
        self.center.spec_add(self.defocus_disk_u.spec_scale(lens.x)).spec_add(
            self.defocus_disk_v.spec_scale(lens.y),
        )
    }

    /// The middle of the pixel in column `i` and row `j`.
    #[verifier::opaque]
    pub open spec fn spec_pixel_center(self, i: u32, j: u32) -> Vec3 {
        self.pixel00_loc.spec_add(
            self.pixel_delta_u.spec_scale(Fixed::spec_from_int(i as int)),
        ).spec_add(self.pixel_delta_v.spec_scale(Fixed::spec_from_int(j as int)))
    }

    /// The ray for the pixel in column `i` and row `j` that passes the
    /// pixel at `jitter_u`, `jitter_v` and leaves the lens at `lens`. It
    /// starts at the camera's center where the lens is a point.
    pub open spec fn spec_ray_through(
        self,
        i: u32,
        j: u32,
        jitter_u: Fixed,
        jitter_v: Fixed,
        lens: Vec3,
    ) -> Ray {
        let pixel_sample = self.spec_pixel_center(i, j).spec_add(
            self.spec_pixel_offset(jitter_u, jitter_v),
        );
        let origin = if self.defocus_tan@ <= 0 {
            self.center
        } else {
            self.spec_lens_point(lens)
        };
        Ray { origin, direction: pixel_sample.spec_sub(origin) }
    }

    /// Whether `ray` is one of the rays that may be drawn for the pixel in
    /// column `i` and row `j`.
    #[verifier::opaque]
    pub open spec fn may_get_ray(self, i: u32, j: u32, ray: Ray) -> bool {
        exists|jitter_u: Fixed, jitter_v: Fixed, lens: Vec3|
            is_unit_draw(jitter_u) && is_unit_draw(jitter_v) && in_unit_sphere(lens) && lens.z
                == Fixed::spec_zero() && ray == #[trigger] self.spec_ray_through(
                i,
                j,
                jitter_u,
                jitter_v,
                lens,
            )
    }

    /// Whether `c` is a color that one sample of the pixel in column `i`
    /// and row `j` may have.
    #[verifier::opaque]
    pub open spec fn may_sample<H: Hittable>(self, world: &H, i: u32, j: u32, c: Color) -> bool {
        exists|ray: Ray|
            self.may_get_ray(i, j, ray) && #[trigger] may_color(
                world,
                ray,
                self.max_depth as nat,
                c,
            )
    }

    /// Whether `rgb` are bytes that the pixel in column `i` and row `j` may
    /// have: those of the sum of as many samples as the camera takes.
    #[verifier::opaque]
    pub open spec fn may_shade<H: Hittable>(self, world: &H, i: u32, j: u32, rgb: Seq<u8>) -> bool {
        exists|samples: Seq<Color>|
            samples.len() == self.samples_per_pixel && (forall|k: int|
                0 <= k < samples.len() ==> self.may_sample(world, i, j, #[trigger] samples[k]))
                && rgb == spec_convert_color(#[trigger] spec_sum(samples), self.samples_per_pixel)
    }

    /// Whether the pixel with index `k` of `image` has bytes that it may
    /// have, where the pixels are stored row by row.
    #[verifier::opaque]
    pub open spec fn may_shade_at<H: Hittable>(self, world: &H, image: Seq<u8>, k: int) -> bool {
        self.may_shade(
            world,
            (k % self.image_width as int) as u32,
            (k / self.image_width as int) as u32,
            spec_pixel_bytes(image, k),
        )
    }

    pub fn new(
        settings: RenderSettings,
        look_from: Vec3,
        look_at: Vec3,
        v_up: Vec3,
        half_fov_tan: Fixed,
        half_defocus_tan: Fixed,
        focus_dist: Fixed,
    ) -> (cam: Camera)
        ensures
            cam == Camera::spec_new(
                settings,
                look_from,
                look_at,
                v_up,
                half_fov_tan,
                half_defocus_tan,
                focus_dist,
            ),
            cam.image_height >= 1,
    {
        let aspect_ratio = settings.aspect_ratio;
        let image_width = settings.image_width;

        let rows: i64 = Fixed::from_int(image_width as i64).div(aspect_ratio).to_int();
        let image_height: u32 = if rows < 1 {
            1
        } else {
            rows as u32
        };

        let center = look_from;

        let viewport_height = Fixed::from_int(2).mul(half_fov_tan).mul(focus_dist);
        let viewport_width = aspect_ratio.mul(viewport_height);

        let w = look_from.sub(look_at).normalize();
        let u = v_up.cross(w).normalize();
        let v = w.cross(u);

        let viewport_u = u.scale(viewport_width);
        let viewport_v = v.neg().scale(viewport_height);

        let pixel_delta_u = viewport_u.div(Fixed::from_int(image_width as i64));
        let pixel_delta_v = viewport_v.div(Fixed::from_int(image_height as i64));

        let viewport_upper_left = center.sub(w.scale(focus_dist)).sub(
            viewport_u.div(Fixed::from_int(2)),
        ).sub(viewport_v.div(Fixed::from_int(2)));

        let pixel00_loc = viewport_upper_left.add(
            pixel_delta_u.add(pixel_delta_v).scale(Fixed::from_ratio(1, 2)),
        );

        let defocus_radius = focus_dist.mul(half_defocus_tan);
        let defocus_disk_u = u.scale(defocus_radius);
        let defocus_disk_v = v.scale(defocus_radius);

        Camera {
            aspect_ratio,
            image_width,
            samples_per_pixel: settings.samples_per_pixel,
            max_depth: settings.max_depth,
            image_height,
            center,
            pixel00_loc,
            pixel_delta_u,
            pixel_delta_v,
            defocus_tan: half_defocus_tan,
            focus_dist,
            defocus_disk_u,
            defocus_disk_v,
        }
    }

    /// The color that a ray brings back which hits nothing.
    pub fn background(r: &Ray) -> (c: Color)
        ensures
            c == spec_background(*r),
    {
        let unit_direction = r.direction.normalize();
        let a = Fixed::from_ratio(1, 2).mul(unit_direction.y.add(Fixed::one()));
        let sky = Vec3 { x: Fixed::from_ratio(1, 2), y: Fixed::from_ratio(7, 10), z: Fixed::one() };
        white().scale(Fixed::one().sub(a)).add(sky.scale(a))
    }

    /// Traces the ray `r` through `world` and returns the color that it
    /// brings back. The ray is given up, and black returned, once it has
    /// met `depth` surfaces.
    pub fn ray_color<H: Hittable>(r: Ray, depth: u32, world: &H, rng: &mut Sampler) -> (c: Color)
        ensures
            may_color(world, r, depth as nat, c),
            depth == 0 ==> c == spec_black() && final(rng)@ == old(rng)@,
            old(rng)@.precedes(final(rng)@),
        decreases depth,
    {
        reveal_with_fuel(may_color, 1);
        if depth == 0 {
            return black();
        }
        let interval = Interval { min: Fixed::from_ratio(1, 1000), max: Fixed::highest() };
        match world.hit(&r, interval) {
            Some(rec) => {
                match rec.mat.scatter(r, &rec, rng) {
                    Some((attenuation, scattered)) => {
                        let inner = Camera::ray_color(scattered, depth - 1, world, rng);
                        let c = attenuation.mul_element_wise(inner);
                        proof {
                            lemma_may_color_scattered(
                                world,
                                r,
                                depth as nat,
                                rec,
                                attenuation,
                                scattered,
                                inner,
                            );
                        }
                        c
                    },
                    None => {
                        let c = black();
                        assert(may_color(world, r, depth as nat, c));
                        c
                    },
                }
            },
            None => {
                let c = Camera::background(&r);
                assert(may_color(world, r, depth as nat, c));
                c
            },
        }
    }

    /// The middle of the pixel in column `i` and row `j`.
    pub fn pixel_center(&self, i: u32, j: u32) -> (p: Vec3)
        ensures
            p == self.spec_pixel_center(i, j),
    {
        reveal(Camera::spec_pixel_center);
        self.pixel00_loc.add(self.pixel_delta_u.scale(Fixed::from_int(i as i64))).add(
            self.pixel_delta_v.scale(Fixed::from_int(j as i64)),
        )
    }

    /// The offset of a sample from the middle of its pixel.
    pub fn pixel_offset(&self, jitter_u: Fixed, jitter_v: Fixed) -> (offset: Vec3)
        ensures
            offset == self.spec_pixel_offset(jitter_u, jitter_v),
    {
        reveal(Camera::spec_pixel_offset);
        let half = Fixed::from_ratio(1, 2);
        self.pixel_delta_u.scale(jitter_u.sub(half)).add(
            self.pixel_delta_v.scale(jitter_v.sub(half)),
        )
    }

    /// The point of the lens that belongs to the point `lens` of the unit
    /// disk.
    pub fn lens_point(&self, lens: Vec3) -> (p: Vec3)
        ensures
            p == self.spec_lens_point(lens),
    {
        reveal(Camera::spec_lens_point);
        self.center.add(self.defocus_disk_u.scale(lens.x)).add(self.defocus_disk_v.scale(lens.y))
    }

    /// The ray for the pixel in column `i` and row `j` with the given
    /// random draws.
    pub fn ray_through(&self, i: u32, j: u32, jitter_u: Fixed, jitter_v: Fixed, lens: Vec3) -> (ray:
        Ray)
        ensures
            ray == self.spec_ray_through(i, j, jitter_u, jitter_v, lens),
    {
        let pixel_sample = self.pixel_center(i, j).add(self.pixel_offset(jitter_u, jitter_v));
        let ray_origin = if self.defocus_tan.le(Fixed::zero()) {
            self.center
        } else {
            self.lens_point(lens)
        };
        Ray { origin: ray_origin, direction: pixel_sample.sub(ray_origin) }
    }

    /// A random offset of a sample from the middle of its pixel.
    pub fn pixel_sample_square(&self, rng: &mut Sampler) -> (offset: Vec3)
        ensures
            exists|jitter_u: Fixed, jitter_v: Fixed|
                is_unit_draw(jitter_u) && is_unit_draw(jitter_v) && offset
                    == #[trigger] self.spec_pixel_offset(jitter_u, jitter_v),
            final(rng)@ == old(rng)@.after(2),
            drew_words(old(rng).words(), final(rng).words(), 2),
            ({
                let w = final(rng).words();
                let n = old(rng).words().len() as int;
                offset == self.spec_pixel_offset(spec_unit(w[n]), spec_unit(w[n + 1]))
            }),
    {
        let ghost w0 = rng.words();
        let jitter_u = random_f64(rng);
        let ghost w1 = rng.words();
        let jitter_v = random_f64(rng);
        let offset = self.pixel_offset(jitter_u, jitter_v);
        proof {
            lemma_drew_words_twice(w0, w1, rng.words(), 1, 1);
            assert(offset == self.spec_pixel_offset(jitter_u, jitter_v));
        }
        offset
    }

    /// A random point of the lens: the one that belongs to the point that
    /// `random_in_unit_disk` gives.
    pub fn defocus_disk_sample(&self, rng: &mut Sampler) -> (p: Vec3)
        ensures
            exists|lens: Vec3|
                in_unit_sphere(lens) && lens.z == Fixed::spec_zero() && p
                    == #[trigger] self.spec_lens_point(lens),
            old(rng)@.after_tries(2, final(rng)@),
            final(rng).words().take(old(rng).words().len() as int) == old(rng).words(),
            exists|tries: int, lens: Vec3| #[trigger]
                is_first_in_disk(final(rng).words(), old(rng).words().len() as int, tries, lens)
                    && p == self.spec_lens_point(lens),
    {
        let lens = random_in_unit_disk(rng);
        let p = self.lens_point(lens);
        proof {
            assert(p == self.spec_lens_point(lens));
            let tries = choose|tries: int| #[trigger]
                is_first_in_disk(rng.words(), old(rng).words().len() as int, tries, lens);
            assert(is_first_in_disk(rng.words(), old(rng).words().len() as int, tries, lens));
        }
        p
    }

    /// A random ray for the pixel in column `i` and row `j`: it passes the
    /// pixel at a random place and leaves the lens at a random point. The
    /// place in the pixel is drawn first, with two words, and a point of the
    /// lens after it, only where the lens is more than a point.
    pub fn get_ray(&self, i: u32, j: u32, rng: &mut Sampler) -> (ray: Ray)
        ensures
            self.may_get_ray(i, j, ray),
            self.defocus_tan@ <= 0 ==> final(rng)@ == old(rng)@.after(2),
            self.defocus_tan@ > 0 ==> old(rng)@.after(2).after_tries(2, final(rng)@),
            final(rng).words().take(old(rng).words().len() as int) == old(rng).words(),
            final(rng).words().len() >= old(rng).words().len() + 2,
            ({
                let w = final(rng).words();
                let n = old(rng).words().len() as int;
                if self.defocus_tan@ <= 0 {
                    w.len() == n + 2 && ray == self.spec_ray_through(
                        i,
                        j,
                        spec_unit(w[n]),
                        spec_unit(w[n + 1]),
                        Vec3::spec_zero(),
                    )
                } else {
                    exists|tries: int, lens: Vec3| #[trigger]
                        is_first_in_disk(w, n + 2, tries, lens) && ray == self.spec_ray_through(
                            i,
                            j,
                            spec_unit(w[n]),
                            spec_unit(w[n + 1]),
                            lens,
                        )
                }
            }),
    {
        let ghost w0 = rng.words();
        let ghost n = w0.len() as int;
        let pixel_center = self.pixel_center(i, j);
        let offset = self.pixel_sample_square(rng);
        let pixel_sample = pixel_center.add(offset);
        let ghost w1 = rng.words();
        let ghost jitter_u = spec_unit(w1[n]);
        let ghost jitter_v = spec_unit(w1[n + 1]);

        let ghost mut lens = Vec3::spec_zero();
        let ghost mut tries = 0int;
        let ray_origin = if self.defocus_tan.le(Fixed::zero()) {
            proof {
                lemma_center_in_unit_sphere();
            }
            self.center
        } else {
            let p = self.defocus_disk_sample(rng);
            proof {
                let found = choose|tries: int, lens: Vec3| #[trigger]
                    is_first_in_disk(rng.words(), n + 2, tries, lens) && p == self.spec_lens_point(
                        lens,
                    );
                tries = found.0;
                lens = found.1;
                assert(is_first_in_disk(rng.words(), n + 2, tries, lens));
                lemma_disk_search_is_inside(rng.words(), n + 2, tries, lens);
                lemma_words_stay(w0, w1, rng.words());
            }
            p
        };
        let ray_direction = pixel_sample.sub(ray_origin);

        let ray = Ray { origin: ray_origin, direction: ray_direction };
        proof {
            assert(ray == self.spec_ray_through(i, j, jitter_u, jitter_v, lens));
            assert(self.may_get_ray(i, j, ray)) by {
                reveal(Camera::may_get_ray);
            }
        }
        ray
    }

    /// The bytes of the pixel in column `i` and row `j`. Every sample draws
    /// at least the place of its ray in the pixel.
    pub fn pixel<H: Hittable>(&self, i: u32, j: u32, world: &H, rng: &mut Sampler) -> (rgb: [u8; 3])
        ensures
            self.may_shade(world, i, j, rgb@),
            final(rng)@.seed == old(rng)@.seed,
            final(rng)@.drawn >= old(rng)@.drawn + 2 * self.samples_per_pixel,
    {
        let mut pixel_color = black();
        let ghost mut samples: Seq<Color> = Seq::empty();
        let mut s: u32 = 0;
        while s < self.samples_per_pixel
            invariant
                s <= self.samples_per_pixel,
                samples.len() == s,
                forall|k: int| 0 <= k < samples.len() ==> self.may_sample(world, i, j, #[trigger] samples[k]),
                pixel_color == spec_sum(samples),
                rng@.seed == old(rng)@.seed,
                rng@.drawn >= old(rng)@.drawn + 2 * s,
            decreases self.samples_per_pixel - s,
        {
            let r = self.get_ray(i, j, rng);
            let c = Camera::ray_color(r, self.max_depth, world, rng);
            proof {
                assert(self.may_sample(world, i, j, c)) by {
                    reveal(Camera::may_sample);
                    assert(self.may_get_ray(i, j, r) && may_color(world, r, self.max_depth as nat, c));
                }
                let longer = samples.push(c);
                assert(longer.drop_last() =~= samples);
                samples = longer;
            }
            pixel_color = pixel_color.add(c);
            s = s + 1;
        }
        let rgb = convert_color(pixel_color, self.samples_per_pixel);
        assert(self.may_shade(world, i, j, rgb@)) by {
            reveal(Camera::may_shade);
            assert(rgb@ == spec_convert_color(spec_sum(samples), self.samples_per_pixel));
        }
        rgb
    }

    /// The image of `world`, row by row from the top and from left to right
    /// in each row, three bytes for each pixel.
    pub fn render<H: Hittable>(&self, world: &H, rng: &mut Sampler) -> (image: Vec<u8>)
        ensures
            image@.len() == 3 * (self.image_width * self.image_height),
            forall|k: int|
                0 <= k < self.image_width * self.image_height ==> #[trigger] self.may_shade_at(
                    world,
                    image@,
                    k,
                ),
            old(rng)@.precedes(final(rng)@),
    {
        let width: u64 = self.image_width as u64;
        proof {
            lemma_pixel_count(self.image_width, self.image_height);
        }
        let total: u64 = width * (self.image_height as u64);
        let mut image: Vec<u8> = Vec::new();
        let mut k: u64 = 0;
        while k < total
            invariant
                width == self.image_width,
                total == self.image_width * self.image_height,
                k <= total,
                image@.len() == 3 * k,
                forall|n: int| 0 <= n < k ==> #[trigger] self.may_shade_at(world, image@, n),
                old(rng)@.precedes(rng@),
            decreases total - k,
        {
            proof {
                lemma_pixel_position(k as int, self.image_width as int, self.image_height as int);
            }
            let i: u64 = k % width;
            let j: u64 = k / width;
            let rgb = self.pixel(i as u32, j as u32, world, rng);
            let ghost before = image@;
            image.push(rgb[0]);
            image.push(rgb[1]);
            image.push(rgb[2]);
            proof {
                assert(spec_pixel_bytes(image@, k as int) =~= rgb@);
                assert(self.may_shade_at(world, image@, k as int)) by {
                    reveal(Camera::may_shade_at);
                }
                assert forall|n: int| 0 <= n < k implies #[trigger] self.may_shade_at(
                    world,
                    image@,
                    n,
                ) by {
                    assert(self.may_shade_at(world, before, n));
                    assert(spec_pixel_bytes(image@, n) =~= spec_pixel_bytes(before, n));
                    reveal(Camera::may_shade_at);
                }
            }
            k = k + 1;
        }
        image
    }
}

/// A ray that is scattered brings back what the scattered ray brings back
/// with one surface less, filtered by the surface.
pub proof fn lemma_may_color_scattered<H: Hittable>(
    world: &H,
    r: Ray,
    depth: nat,
    rec: HitRecord,
    attenuation: Color,
    scattered: Ray,
    inner: Color,
)
    requires
        depth > 0,
        world.spec_hit(r, spec_trace_interval()) == Some(rec),
        rec.mat.may_scatter(r, rec, Some((attenuation, scattered))),
        may_color(world, scattered, (depth - 1) as nat, inner),
    ensures
        may_color(world, r, depth, attenuation.spec_mul_element_wise(inner)),
{
    reveal_with_fuel(may_color, 1);
}

/// The number of pixels of an image fits in 64 bits.
proof fn lemma_pixel_count(width: u32, height: u32)
    by (nonlinear_arith)
    ensures
        0 <= width * height <= 0xffff_ffff * 0xffff_ffff,
{
}

/// The pixel with index `k` lies in a column and in a row of the image.
proof fn lemma_pixel_position(k: int, width: int, height: int)
    by (nonlinear_arith)
    requires
        0 <= k < width * height,
        0 <= width,
        0 <= height,
    ensures
        0 < width,
        0 <= k % width < width,
        0 <= k / width < height,
{
}

} // verus!
