//! The integrator, which follows a ray through the scene, and the driver
//! that turns a scene into an image.

use rand::rngs::SmallRng;
use vstd::prelude::*;

use crate::camera::Camera;
use crate::material::dielectric::white;
use crate::material::Material;
use crate::ray::hittable::Hittable;
use crate::ray::utils::{pixel_line, ppm_header, ppm_header_spec, write_color};
use crate::ray::{Color, Ray, Vec3, Vector};
use crate::scalar::{Scalar, SCALE};

verus! {

broadcast use {Vec3::lemma_of, Vec3::lemma_view_injective};

/// How far from its origin a ray must travel before a hit counts, in steps
/// of 2^-16. It keeps a scattered ray from hitting the surface it left.
pub const T_MIN: i64 = 64;

/// No light.
pub open spec fn black() -> Color {
    Vec3::of(Vector::zero())
}

/// The colour of the sky straight up.
pub open spec fn sky_blue() -> Color {
    Vec3::of(Vector { x: 32768, y: 45875, z: 65536 })
}

/// The colour of the background along `ray`: white blended into blue by the
/// height `t = (y + 1) / 2` of the ray's unit direction.
pub open spec fn sky_spec(ray: Ray) -> Color {
    let one = Scalar::of(SCALE as int);
    let unit_direction = ray.direction.unit_spec();
    let t = Scalar::of(SCALE / 2).times(Scalar::of(unit_direction@.y).plus(one));
    white().scaled(one.minus(t)).plus(sky_blue().scaled(t))
}

/// The near bound of the integrator's search.
pub open spec fn nearest_allowed() -> Scalar {
    Scalar::of(T_MIN as int)
}

/// The far bound of the integrator's search, which stands in for infinity.
pub open spec fn farthest_allowed() -> Scalar {
    Scalar::of(i64::MAX as int)
}

/// The colour of the background along `ray`.
pub fn sky(ray: &Ray) -> (c: Color)
    ensures
        c == sky_spec(*ray),
{
    let unit_direction = ray.direction.unit();
    let t = Scalar::from_ratio(1, 2) * (unit_direction.y() + Scalar::one());
    Color::from_coords(Scalar::one(), Scalar::one(), Scalar::one()) * (Scalar::one() - t)
        + Color::from_coords(Scalar::from_ratio(1, 2), Scalar::from_ratio(7, 10), Scalar::one())
        * t
}

/// Whether following `ray` through `world` for at most `depth` scatterings
/// can give the colour `c`, for some outcome of the random choices that the
/// materials make.
///
/// With no depth left no light is gathered. A ray that hits nothing sees
/// the sky. A ray that hits a surface is handed to its material: absorbed,
/// it brings no light; scattered, it brings what the scattered ray can
/// gather with one scattering fewer to go, multiplied by the attenuation.
pub open spec fn may_gather<W: Hittable>(world: W, ray: Ray, depth: nat, c: Color) -> bool
    decreases depth, 0nat,
{
    if depth == 0 {
        c == black()
    } else {
        match world.hit_spec(ray, nearest_allowed(), farthest_allowed()) {
            None => c == sky_spec(ray),
            Some(rec) => match rec.material {
                None => c == black(),
                Some(material) => exists|sample: Vec3, draw: Scalar|
                    {
                        &&& sample.wf()
                        &&& sample.in_unit_sphere()
                        &&& 0 <= draw@ < SCALE
                        &&& may_follow(
                            world,
                            #[trigger] material.scatter_model(ray, rec, sample, draw),
                            (depth - 1) as nat,
                            c,
                        )
                    },
            },
        }
    }
}

/// Whether a ray that a material has dealt with can bring the colour `c`:
/// black if it was absorbed, else the attenuation times a colour that the
/// scattered ray can gather.
pub open spec fn may_follow<W: Hittable>(
    world: W,
    outcome: (bool, Ray, Color),
    depth: nat,
    c: Color,
) -> bool
    decreases depth, 1nat,
{
    if outcome.0 {
        exists|incoming: Color|
            may_gather(world, outcome.1, depth, incoming) && c == #[trigger] outcome.2.times(
                incoming,
            )
    } else {
        c == black()
    }
}

/// The light that arrives along `ray`, followed through at most `depth`
/// scatterings: one of the colours that `may_gather` allows. In particular
/// a ray without depth is black, a ray that hits nothing has the colour of
/// the sky, and with a depth of one every ray that hits a surface is black.
pub fn ray_color<W: Hittable>(ray: &Ray, world: &W, rng: &mut SmallRng, depth: u32) -> (c: Color)
    ensures
        may_gather(*world, *ray, depth as nat, c),
        depth == 0 ==> c == black(),
        depth > 0 && world.hit_spec(*ray, nearest_allowed(), farthest_allowed()) is None ==> c
            == sky_spec(*ray),
        depth == 1 && world.hit_spec(*ray, nearest_allowed(), farthest_allowed()) is Some ==> c
            == black(),
    decreases depth,
{
    if depth == 0 {
        return Color::new();
    }
    let (hit, rec) = world.hit(ray, Scalar::from_raw(T_MIN), Scalar::max_value());
    if hit {
        if let Some(mat) = &rec.material {
            let (success, scattered, attenuation) = mat.scatter(ray, &rec, rng);
            let ghost (sample, draw) = choose|sample: Vec3, draw: Scalar|
                sample.wf() && sample.in_unit_sphere() && 0 <= draw@ < SCALE && (
                success,
                scattered,
                attenuation,
            ) == #[trigger] mat.scatter_spec(*ray, rec, sample, draw);
            assert(mat.scatter_model(*ray, rec, sample, draw) == (success, scattered, attenuation));
            assert(!success ==> may_follow(
                *world,
                mat.scatter_model(*ray, rec, sample, draw),
                (depth - 1) as nat,
                black(),
            ));
            if success {
                let incoming = ray_color(&scattered, world, rng, depth - 1);
                proof {
                    use_type_invariant(&attenuation);
                    if depth == 1 {
                        lemma_black_absorbs(attenuation);
                    }
                }
                let c = attenuation * incoming;
                proof {
                    let outcome = mat.scatter_model(*ray, rec, sample, draw);
                    assert(may_gather(*world, outcome.1, (depth - 1) as nat, incoming) && c
                        == outcome.2.times(incoming));
                    assert(may_follow(*world, outcome, (depth - 1) as nat, c));
                }
                return c;
            }
            return Color::from_coords(Scalar::zero(), Scalar::zero(), Scalar::zero());
        }
        return Color::from_coords(Scalar::zero(), Scalar::zero(), Scalar::zero());
    }
    sky(ray)
}

/// Any colour times black is black.
pub proof fn lemma_black_absorbs(color: Color)
    ensures
        color.times(black()) == black(),
{
    vstd::arithmetic::div_mod::lemma_div_of0(SCALE as int);
    assert(color@.times(black()@).rounded(SCALE as int) == Vector::zero()) by {
        assert(color@.x * 0 == 0 && color@.y * 0 == 0 && color@.z * 0 == 0);
    }
}

/// The height of an image of the given width: nine sixteenths of it,
/// rounded down.
pub fn image_height(width: u32) -> (height: u32)
    ensures
        height == width * 9 / 16,
{
    (width as u64 * 9 / 16) as u32
}

/// How far along the image a pixel lies: its index, moved by `offset`
/// within the pixel, as a fraction of the last index `extent - 1`.
pub open spec fn pixel_fraction(index: u32, offset: Scalar, extent: u32) -> Scalar {
    Scalar::of(index * SCALE).plus(offset).over(Scalar::of((extent - 1) * SCALE))
}

/// The camera ray through the pixel in column `i`, counted from the left,
/// and row `j`, counted from the bottom, of an image of `width` by `height`
/// pixels, moved within the pixel by the offsets `du` and `dv`.
pub fn pixel_ray(
    camera: &Camera,
    i: u32,
    j: u32,
    width: u32,
    height: u32,
    du: Scalar,
    dv: Scalar,
) -> (r: Ray)
    ensures
        r == camera.ray_spec(pixel_fraction(i, du, width), pixel_fraction(j, dv, height)),
{
    let u = (Scalar::from_int(i as i64) + du) / Scalar::from_int(width as i64 - 1);
    let v = (Scalar::from_int(j as i64) + dv) / Scalar::from_int(height as i64 - 1);
    camera.get_ray(u, v)
}

/// Whether the light along `samples` rays through one pixel, each moved
/// within the pixel by offsets from `[0, 1)` and followed for at most
/// `depth` scatterings, can add up to `c`.
pub open spec fn may_sample<W: Hittable>(
    camera: Camera,
    world: W,
    i: u32,
    j: u32,
    width: u32,
    height: u32,
    samples: nat,
    depth: nat,
    c: Color,
) -> bool
    decreases samples,
{
    if samples == 0 {
        c == black()
    } else {
        exists|before: Color, du: Scalar, dv: Scalar, light: Color|
            #![trigger before.plus(light), pixel_fraction(i, du, width), pixel_fraction(j, dv, height)]
            {
                &&& may_sample(camera, world, i, j, width, height, (samples - 1) as nat, depth, before)
                &&& 0 <= du@ < SCALE
                &&& 0 <= dv@ < SCALE
                &&& may_gather(
                    world,
                    camera.ray_spec(pixel_fraction(i, du, width), pixel_fraction(j, dv, height)),
                    depth,
                    light,
                )
                &&& c == before.plus(light)
            }
    }
}

/// The sum of the light along `samples_per_pixel` rays through one pixel,
/// each moved within the pixel by offsets drawn from `[0, 1)`: one of the
/// colours that `may_sample` allows. Without samples or without depth it is
/// black.
pub fn pixel_color<W: Hittable>(
    camera: &Camera,
    world: &W,
    rng: &mut SmallRng,
    i: u32,
    j: u32,
    width: u32,
    height: u32,
    samples_per_pixel: u32,
    max_depth: u32,
) -> (c: Color)
    ensures
        may_sample(
            *camera,
            *world,
            i,
            j,
            width,
            height,
            samples_per_pixel as nat,
            max_depth as nat,
            c,
        ),
        samples_per_pixel == 0 || max_depth == 0 ==> c == black(),
{
    let mut pixel_color = Color::new();
    let mut s: u32 = 0;
    while s < samples_per_pixel
        invariant
            s <= samples_per_pixel,
            may_sample(*camera, *world, i, j, width, height, s as nat, max_depth as nat, pixel_color),
            s == 0 || max_depth == 0 ==> pixel_color == black(),
        decreases samples_per_pixel - s,
    {
        let du = Scalar::random(rng);
        let dv = Scalar::random(rng);
        let ray = pixel_ray(camera, i, j, width, height, du, dv);
        let light = ray_color(&ray, world, rng, max_depth);
        let ghost before = pixel_color;
        pixel_color = pixel_color + light;
        s = s + 1;
        proof {
            assert(pixel_color == before.plus(light));
            assert(ray == camera.ray_spec(
                pixel_fraction(i, du, width),
                pixel_fraction(j, dv, height),
            ));
        }
    }
    pixel_color
}

/// The order in which the pixels of an image are produced: row by row from
/// the top, and from left to right within a row.
pub struct Scan {
    width: u32,
    height: u32,
    done: u64,
}

impl Scan {
    /// No more pixels have been handed out than the image has.
    #[verifier::type_invariant]
    pub open spec fn wf(self) -> bool {
        self.done() <= self.width() * self.height()
    }

    pub closed spec fn width(self) -> u32 {
        self.width
    }

    pub closed spec fn height(self) -> u32 {
        self.height
    }

    /// How many pixels have been handed out.
    pub closed spec fn done(self) -> u64 {
        self.done
    }

    /// The scan of an image of the given size, before its first pixel.
    pub fn new(width: u32, height: u32) -> (scan: Scan)
        ensures
            scan.width() == width,
            scan.height() == height,
            scan.done() == 0,
    {
        proof {
            lemma_area_bounds(width, height);
        }
        Scan { width, height, done: 0 }
    }

    /// The column, counted from the left, and the row, counted from the
    /// bottom, of the next pixel; `None` once every pixel was handed out.
    pub fn next_pixel(&mut self) -> (r: Option<(u32, u32)>)
        ensures
            final(self).width() == old(self).width(),
            final(self).height() == old(self).height(),
            match r {
                Some((i, j)) => {
                    &&& old(self).done() < old(self).width() * old(self).height()
                    &&& final(self).done() == old(self).done() + 1
                    &&& i == old(self).done() % (old(self).width() as u64)
                    &&& j == old(self).height() - 1 - old(self).done() / (old(self).width() as u64)
                },
                None => {
                    &&& old(self).done() == old(self).width() * old(self).height()
                    &&& final(self).done() == old(self).done()
                },
            },
    {
        proof {
            use_type_invariant(&*self);
            lemma_area_bounds(self.width, self.height);
        }
        let total: u64 = self.width as u64 * self.height as u64;
        if self.done >= total {
            return None;
        }
        let width: u64 = self.width as u64;
        assert(width > 0) by (nonlinear_arith)
            requires
                self.done < width * self.height,
                self.done >= 0,
        ;
        let column: u64 = self.done % width;
        let row: u64 = self.done / width;
        assert(row < self.height) by {
            vstd::arithmetic::div_mod::lemma_multiply_divide_lt(
                self.done as int,
                width as int,
                self.height as int,
            );
        }
        let r = Some((column as u32, (self.height as u64 - 1 - row) as u32));
        self.done = self.done + 1;
        r
    }
}

/// The number of pixels of an image fits in 64 bits.
pub proof fn lemma_area_bounds(width: u32, height: u32)
    by (nonlinear_arith)
    ensures
        0 <= width * height <= 0xffff_ffff * 0xffff_ffff,
{
}

/// The lines of text for a sequence of pixels, in order.
pub open spec fn pixel_lines(pixels: Seq<Color>, samples: u32) -> Seq<u8>
    decreases pixels.len(),
{
    if pixels.len() == 0 {
        Seq::empty()
    } else {
        pixel_lines(pixels.drop_last(), samples) + pixel_line(pixels.last(), samples)
    }
}

/// A plain-text image: the head, then one line for each pixel.
pub open spec fn ppm_image(width: u32, height: u32, pixels: Seq<Color>, samples: u32) -> Seq<u8> {
    ppm_header_spec(width, height) + pixel_lines(pixels, samples)
}

/// Where the pixel with the given place in the order of output lies: its
/// column, counted from the left, and its row, counted from the bottom.
pub open spec fn scan_position(index: int, width: u32, height: u32) -> (int, int) {
    (index % (width as int), height - 1 - index / (width as int))
}

/// Whether `pixels` can be the sums of samples of the pixels of an image,
/// in the order of output.
pub open spec fn may_render<W: Hittable>(
    camera: Camera,
    world: W,
    width: u32,
    height: u32,
    samples: u32,
    depth: u32,
    pixels: Seq<Color>,
) -> bool {
    forall|k: int|
        0 <= k < pixels.len() ==> may_sample(
            camera,
            world,
            scan_position(k, width, height).0 as u32,
            scan_position(k, width, height).1 as u32,
            width,
            height,
            samples as nat,
            depth as nat,
            #[trigger] pixels[k],
        )
}

/// Renders the scene as a plain-text image of `width` by `height` pixels,
/// rows from the top, with `samples_per_pixel` rays through each pixel.
///
/// The text is that of `width * height` colours, each of them a sum of
/// samples that `may_sample` allows for its pixel; without samples or
/// without depth every one of them is black.
pub fn render<W: Hittable>(
    camera: &Camera,
    world: &W,
    rng: &mut SmallRng,
    width: u32,
    height: u32,
    samples_per_pixel: u32,
    max_depth: u32,
) -> (out: Vec<u8>)
    ensures
        exists|pixels: Seq<Color>|
            {
                &&& pixels.len() == width * height
                &&& may_render(
                    *camera,
                    *world,
                    width,
                    height,
                    samples_per_pixel,
                    max_depth,
                    pixels,
                )
                &&& out@ == #[trigger] ppm_image(width, height, pixels, samples_per_pixel)
            },
        samples_per_pixel == 0 || max_depth == 0 ==> out@ == ppm_image(
            width,
            height,
            Seq::new((width * height) as nat, |k: int| black()),
            samples_per_pixel,
        ),
{
    let mut out = ppm_header(width, height);
    let mut scan = Scan::new(width, height);
    let ghost mut pixels: Seq<Color> = Seq::empty();
    loop
        invariant
            scan.width() == width,
            scan.height() == height,
            pixels.len() == scan.done(),
            scan.done() <= width * height,
            out@ == ppm_image(width, height, pixels, samples_per_pixel),
            may_render(*camera, *world, width, height, samples_per_pixel, max_depth, pixels),
            samples_per_pixel == 0 || max_depth == 0 ==> pixels == Seq::new(
                pixels.len(),
                |k: int| black(),
            ),
        ensures
            pixels.len() == width * height,
            out@ == ppm_image(width, height, pixels, samples_per_pixel),
            may_render(*camera, *world, width, height, samples_per_pixel, max_depth, pixels),
            samples_per_pixel == 0 || max_depth == 0 ==> pixels == Seq::new(
                pixels.len(),
                |k: int| black(),
            ),
        decreases width * height - scan.done(),
    {
        let ghost index = scan.done() as int;
        let next = scan.next_pixel();
        match next {
            Some((i, j)) => {
                let color = pixel_color(
                    camera,
                    world,
                    rng,
                    i,
                    j,
                    width,
                    height,
                    samples_per_pixel,
                    max_depth,
                );
                write_color(&mut out, color, samples_per_pixel);
                proof {
                    let longer = pixels.push(color);
                    assert(longer.drop_last() == pixels);
                    assert(longer.last() == color);
                    assert(out@ == ppm_image(width, height, longer, samples_per_pixel));
                    if samples_per_pixel == 0 || max_depth == 0 {
                        assert(longer == Seq::new(longer.len(), |k: int| black()));
                    }
                    assert(scan_position(index, width, height) == (i as int, j as int));
                    assert forall|k: int| 0 <= k < longer.len() implies may_sample(
                        *camera,
                        *world,
                        scan_position(k, width, height).0 as u32,
                        scan_position(k, width, height).1 as u32,
                        width,
                        height,
                        samples_per_pixel as nat,
                        max_depth as nat,
                        #[trigger] longer[k],
                    ) by {
                        if k < pixels.len() {
                            assert(longer[k] == pixels[k]);
                        }
                    }
                    pixels = longer;
                }
            },
            None => {
                break ;
            },
        }
    }
    out
}

} // verus!
