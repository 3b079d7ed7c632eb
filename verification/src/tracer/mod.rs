pub mod lights;
pub mod objects;

use crate::graphics::{Canvas, Color, Pixel};
use crate::math::scalar::{lemma_div_nonneg, lemma_mul_nonneg, Scalar};
use crate::math::vec3::{Vector, Vertex};
use crate::math::PI_RAW;
use lights::{lemma_intensity_nonneg, Light};
use objects::Object;
use vstd::arithmetic::div_mod::lemma_fundamental_div_mod_converse;
use vstd::prelude::*;

verus! {

/// Raw part of the offset that lifts a shadow ray's origin off its surface,
/// so the surface cannot occlude itself.
pub const EPS_RAW: i64 = 64;

/// What a ray is cast for: through a pixel, toward a light, or for the
/// reflective kinds a tracer may grow into.
#[derive(Clone, PartialEq, Eq, Hash, Debug, Structural)]
pub enum RayKind {
    Primary,
    Shadow,
    Reflection,
    Refraction,
}

/// A ray: an origin, a direction, and the kind it was cast for. Rays are
/// built fresh for every test and never changed afterwards.
pub struct Ray {
    pub kind: RayKind,
    pub origin: Vertex,
    pub direction: Vector,
}

/// What a primary ray through pixel `(x, y)` of a `width` by `height` screen
/// is: the camera sits at the origin, the screen plane at depth `-1`, and the
/// pixel center is mapped there, corrected for the aspect ratio; the ray
/// direction is the unit vector toward that point.
pub open spec fn spec_primary_ray(width: u32, height: u32, x: u32, y: u32) -> Ray {
    let half = Scalar::spec_from_ratio(1i64, 2i64);
    let one = Scalar::spec_from_int(1i64);
    let two = Scalar::spec_from_int(2i64);
    let ws = Scalar::spec_from_int(width as i64);
    let hs = Scalar::spec_from_int(height as i64);
    let xs = Scalar::spec_from_int(x as i64);
    let ys = Scalar::spec_from_int(y as i64);
    let sx = xs.spec_add(half).spec_div(ws).spec_mul(two).spec_sub(one).spec_mul(ws).spec_div(hs);
    let sy = one.spec_sub(ys.spec_add(half).spec_div(hs).spec_mul(two));
    let origin = Vertex { x: Scalar { raw: 0 }, y: Scalar { raw: 0 }, z: Scalar { raw: 0 } };
    let screen_vec = Vertex { x: sx, y: sy, z: one.spec_neg() };
    Ray {
        kind: RayKind::Primary,
        origin,
        direction: Vector::spec_from_vertices(origin, screen_vec).spec_normalize(),
    }
}

/// The primary ray through pixel `(x, y)` of a `width` by `height` screen.
pub fn primary_ray(width: u32, height: u32, x: u32, y: u32) -> (r: Ray)
    ensures
        r == spec_primary_ray(width, height, x, y),
{
    let half = Scalar::from_ratio(1, 2);
    let one = Scalar::from_int(1);
    let two = Scalar::from_int(2);
    let ws = Scalar::from_int(width as i64);
    let hs = Scalar::from_int(height as i64);
    let xs = Scalar::from_int(x as i64);
    let ys = Scalar::from_int(y as i64);
    let sx = xs.add(half).div(ws).mul(two).sub(one).mul(ws).div(hs);
    let sy = one.sub(ys.add(half).div(hs).mul(two));
    let origin = Vertex { x: Scalar { raw: 0 }, y: Scalar { raw: 0 }, z: Scalar { raw: 0 } };
    let screen_vec = Vertex { x: sx, y: sy, z: one.neg() };
    Ray {
        kind: RayKind::Primary,
        origin,
        direction: Vector::from_vertices(origin, screen_vec).normalize(),
    }
}

/// A pixel grid handed out as primary rays, one per pixel, row by row.
pub struct Screen {
    pub width: u32,
    pub height: u32,
    pub cursor: usize,
    pub points: Vec<(u32, u32)>,
}

impl Screen {
    /// The screen's points stand in row-major order, one for each pixel.
    pub open spec fn wf(self) -> bool {
        &&& self.points@.len() == self.width * self.height
        &&& forall|i: int|
            0 <= i < self.points@.len() ==> #[trigger] self.points@[i] == (
            (i % (self.width as int)) as u32,
            (i / (self.width as int)) as u32,
            )
    }

    /// A screen of the given size, ready to hand out one ray per pixel in
    /// row-major order.
    pub fn new(width: u32, height: u32) -> (r: Screen)
        requires
            width * height <= usize::MAX,
        ensures
            r.width == width,
            r.height == height,
            r.cursor == 0,
            r.wf(),
    {
        let mut points: Vec<(u32, u32)> = Vec::new();
        let mut y: u32 = 0;
        while y < height
            invariant
                y <= height,
                width * height <= usize::MAX,
                points@.len() == y * width,
                forall|i: int|
                    0 <= i < points@.len() ==> #[trigger] points@[i] == (
                    (i % (width as int)) as u32,
                    (i / (width as int)) as u32,
                    ),
            decreases height - y,
        {
            let mut x: u32 = 0;
            proof {
                lemma_row_bound(y as int, width as int, height as int);
            }
            while x < width
                invariant
                    x <= width,
                    y < height,
                    width * height <= usize::MAX,
                    points@.len() == y * width + x,
                    y * width + width <= width * height,
                    forall|i: int|
                        0 <= i < points@.len() ==> #[trigger] points@[i] == (
                        (i % (width as int)) as u32,
                        (i / (width as int)) as u32,
                        ),
                decreases width - x,
            {
                proof {
                    lemma_fundamental_div_mod_converse(
                        (y * width + x) as int,
                        width as int,
                        y as int,
                        x as int,
                    );
                }
                points.push((x, y));
                x = x + 1;
            }
            proof {
                assert((y + 1) * width == y * width + width) by (nonlinear_arith);
            }
            y = y + 1;
        }
        proof {
            assert(height * width == width * height) by (nonlinear_arith);
        }
        Screen { width, height, cursor: 0, points }
    }

    /// Hand out the next pixel with its primary ray, or nothing once every
    /// pixel has been handed out. The cursor advances by one each time.
    pub fn next(&mut self) -> (r: Option<((u32, u32), Ray)>)
        ensures
            old(self).cursor >= old(self).points@.len() ==> r is None && *final(self) == *old(
                self,
            ),
            old(self).cursor < old(self).points@.len() ==> {
                let point = old(self).points@[old(self).cursor as int];
                &&& final(self).cursor == old(self).cursor + 1
                &&& final(self).width == old(self).width
                &&& final(self).height == old(self).height
                &&& final(self).points@ == old(self).points@
                &&& r == Some(
                    (point, spec_primary_ray(old(self).width, old(self).height, point.0, point.1)),
                )
            },
    {
        if self.cursor >= self.points.len() {
            return None;
        }
        let point = self.points[self.cursor];
        self.cursor = self.cursor + 1;
        let ray = primary_ray(self.width, self.height, point.0, point.1);
        Some((point, ray))
    }
}

/// The record of a ray's nearest hit: the object hit, the distance along the
/// ray, and the hit point derived from them.
#[derive(Clone, Copy)]
pub struct Interception {
    pub object: Object,
    pub distance: Scalar,
    pub hitpoint: Vertex,
}

impl Interception {
    /// What `new` returns: the hit point is `origin + direction * distance`,
    /// component by component.
    pub open spec fn spec_new(object: Object, ray: Ray, distance: Scalar) -> Interception {
        Interception {
            object,
            distance,
            hitpoint: Vertex {
                x: ray.origin.x.spec_add(ray.direction.x.spec_mul(distance)),
                y: ray.origin.y.spec_add(ray.direction.y.spec_mul(distance)),
                z: ray.origin.z.spec_add(ray.direction.z.spec_mul(distance)),
            },
        }
    }

    /// Record a hit of `ray` at `distance`, deriving the hit point.
    pub fn new(object: Object, ray: &Ray, distance: Scalar) -> (r: Interception)
        ensures
            r == Interception::spec_new(object, *ray, distance),
    {
        Interception {
            object,
            distance,
            hitpoint: Vertex {
                x: ray.origin.x.add(ray.direction.x.mul(distance)),
                y: ray.origin.y.add(ray.direction.y.mul(distance)),
                z: ray.origin.z.add(ray.direction.z.mul(distance)),
            },
        }
    }
}

/// A count one higher, sticking at the machine maximum instead of wrapping.
pub open spec fn spec_inc(c: usize) -> usize {
    if c < usize::MAX {
        (c + 1) as usize
    } else {
        c
    }
}

/// Counts of traced rays, one counter per ray kind.
#[derive(Clone, Copy, Debug, PartialEq, Eq, Structural)]
pub struct Statistics {
    pub primary: usize,
    pub shadow: usize,
    pub reflection: usize,
    pub refraction: usize,
}

impl Statistics {
    /// The statistics with every counter at zero.
    pub open spec fn spec_default() -> Statistics {
        Statistics { primary: 0, shadow: 0, reflection: 0, refraction: 0 }
    }

    /// The count recorded for one ray kind.
    pub open spec fn spec_count(self, kind: RayKind) -> usize {
        match kind {
            RayKind::Primary => self.primary,
            RayKind::Shadow => self.shadow,
            RayKind::Reflection => self.reflection,
            RayKind::Refraction => self.refraction,
        }
    }

    /// What `count_ray` leaves behind: the counter of the ray's kind one
    /// higher, the others untouched.
    pub open spec fn spec_count_ray(self, kind: RayKind) -> Statistics {
        match kind {
            RayKind::Primary => Statistics { primary: spec_inc(self.primary), ..self },
            RayKind::Shadow => Statistics { shadow: spec_inc(self.shadow), ..self },
            RayKind::Reflection => Statistics { reflection: spec_inc(self.reflection), ..self },
            RayKind::Refraction => Statistics { refraction: spec_inc(self.refraction), ..self },
        }
    }

    /// Record one traced ray of the given kind.
    pub fn count_ray(&mut self, ray: &Ray)
        ensures
            *final(self) == old(self).spec_count_ray(ray.kind),
    {
        match ray.kind {
            RayKind::Primary => {
                if self.primary < usize::MAX {
                    self.primary = self.primary + 1;
                }
            },
            RayKind::Shadow => {
                if self.shadow < usize::MAX {
                    self.shadow = self.shadow + 1;
                }
            },
            RayKind::Reflection => {
                if self.reflection < usize::MAX {
                    self.reflection = self.reflection + 1;
                }
            },
            RayKind::Refraction => {
                if self.refraction < usize::MAX {
                    self.refraction = self.refraction + 1;
                }
            },
        }
    }

    /// The count recorded for one ray kind.
    pub fn count(&self, kind: &RayKind) -> (r: usize)
        ensures
            r == self.spec_count(*kind),
    {
        match kind {
            RayKind::Primary => self.primary,
            RayKind::Shadow => self.shadow,
            RayKind::Reflection => self.reflection,
            RayKind::Refraction => self.refraction,
        }
    }
}

impl Default for Statistics {
    /// Statistics with every counter at zero.
    fn default() -> (s: Statistics)
        ensures
            s == Statistics::spec_default(),
    {
        Statistics { primary: 0, shadow: 0, reflection: 0, refraction: 0 }
    }
}

/// The nearest hit of `ray` among the objects, scanned left to right; on an
/// exact tie of distances the earlier object keeps the hit.
pub open spec fn spec_trace(objects: Seq<Object>, ray: Ray) -> Option<Interception>
    decreases objects.len(),
{
    if objects.len() == 0 {
        None
    } else {
        let prev = spec_trace(objects.drop_last(), ray);
        let o = objects.last();
        match o.spec_intercept(ray) {
            Some(d) => {
                let i = Interception::spec_new(o, ray, d);
                match prev {
                    Some(p) => if i.distance.raw < p.distance.raw {
                        Some(i)
                    } else {
                        Some(p)
                    },
                    None => Some(i),
                }
            },
            None => prev,
        }
    }
}

/// What one light adds at a hit: nothing when the shadow ray cast toward the
/// light hits something at least as near as the light stands; otherwise the
/// surface color filtered by the light's color, scaled by the Lambertian
/// term, the arriving intensity, and the surface's reflectance.
pub open spec fn spec_light_contribution(
    objects: Seq<Object>,
    inter: Interception,
    light: Light,
) -> Color {
    let hitpoint = inter.hitpoint;
    let normal = inter.object.spec_compute_normal(hitpoint);
    let light_direction = light.spec_direction_from(hitpoint);
    let shadow_ray = Ray {
        origin: Vertex {
            x: hitpoint.x.spec_add(normal.x.spec_mul(Scalar { raw: EPS_RAW })),
            y: hitpoint.y.spec_add(normal.y.spec_mul(Scalar { raw: EPS_RAW })),
            z: hitpoint.z.spec_add(normal.z.spec_mul(Scalar { raw: EPS_RAW })),
        },
        direction: light_direction,
        kind: RayKind::Shadow,
    };
    let enlighted = match spec_trace(objects, shadow_ray) {
        Some(i) => i.distance.raw > light.spec_distance(hitpoint).raw,
        None => true,
    };
    if enlighted {
        let power = normal.spec_dot(light_direction).spec_max(Scalar { raw: 0 }).spec_mul(
            light.spec_intensity(hitpoint),
        );
        let reflected = inter.object.spec_albedo().spec_div(Scalar { raw: PI_RAW });
        let light_color = light.spec_color().spec_color_mul_scalar(power).spec_color_mul_scalar(
            reflected,
        );
        inter.object.spec_color().spec_color_mul(light_color)
    } else {
        Color::spec_default()
    }
}

/// The shaded color at a hit: the lights' contributions, summed in
/// registration order with the saturating color addition.
pub open spec fn spec_shade(objects: Seq<Object>, lights: Seq<Light>, inter: Interception) -> Color
    decreases lights.len(),
{
    if lights.len() == 0 {
        Color::spec_default()
    } else {
        spec_shade(objects, lights.drop_last(), inter).spec_color_add(
            spec_light_contribution(objects, inter, lights.last()),
        )
    }
}

/// With no lights registered, shading yields the default color: a hit is
/// painted black.
pub proof fn lemma_shade_no_lights(objects: Seq<Object>, lights: Seq<Light>, inter: Interception)
    requires
        lights.len() == 0,
    ensures
        spec_shade(objects, lights, inter) == Color::spec_default(),
{
}

/// An occluded light contributes nothing: when the shadow ray's nearest hit
/// stands at most as far as the light, the light's contribution is the
/// default color, which the saturating addition ignores.
pub proof fn lemma_occluded_light_contributes_nothing(
    objects: Seq<Object>,
    inter: Interception,
    light: Light,
    c: Color,
)
    requires
        ({
            let hitpoint = inter.hitpoint;
            let normal = inter.object.spec_compute_normal(hitpoint);
            let shadow_ray = Ray {
                origin: Vertex {
                    x: hitpoint.x.spec_add(normal.x.spec_mul(Scalar { raw: EPS_RAW })),
                    y: hitpoint.y.spec_add(normal.y.spec_mul(Scalar { raw: EPS_RAW })),
                    z: hitpoint.z.spec_add(normal.z.spec_mul(Scalar { raw: EPS_RAW })),
                },
                direction: light.spec_direction_from(hitpoint),
                kind: RayKind::Shadow,
            };
            &&& spec_trace(objects, shadow_ray) is Some
            &&& spec_trace(objects, shadow_ray)->Some_0.distance.raw <= light.spec_distance(
                hitpoint,
            ).raw
        }),
    ensures
        spec_light_contribution(objects, inter, light) == Color::spec_default(),
        c.spec_color_add(spec_light_contribution(objects, inter, light)) == c,
{
}

/// A count raised by `n`, sticking at the machine maximum instead of
/// wrapping.
pub open spec fn sat_add_usize(c: usize, n: int) -> usize
    recommends
        n >= 0,
{
    if c + n > usize::MAX {
        usize::MAX
    } else {
        (c + n) as usize
    }
}

/// The scene: its surfaces, its lights, and the ray counts gathered while
/// tracing. Tracing reads the surfaces and lights and only ever changes the
/// counts.
pub struct Scene {
    pub objects: Vec<Object>,
    pub lights: Vec<Light>,
    pub stats: Statistics,
}

impl Default for Scene {
    /// An empty scene with zeroed statistics.
    fn default() -> (s: Scene)
        ensures
            s.objects@.len() == 0,
            s.lights@.len() == 0,
            s.stats == Statistics::spec_default(),
    {
        Scene { objects: Vec::new(), lights: Vec::new(), stats: Statistics::default() }
    }
}

impl Scene {
    /// Register one more surface, after the ones already registered.
    pub fn add_object(&mut self, object: Object)
        ensures
            final(self).objects@ == old(self).objects@.push(object),
            final(self).lights@ == old(self).lights@,
            final(self).stats == old(self).stats,
    {
        self.objects.push(object)
    }

    /// Register one more light, after the ones already registered.
    pub fn add_light(&mut self, light: Light)
        ensures
            final(self).objects@ == old(self).objects@,
            final(self).lights@ == old(self).lights@.push(light),
            final(self).stats == old(self).stats,
    {
        self.lights.push(light)
    }

    /// Find the nearest hit of `ray` among the scene's surfaces, counting the
    /// ray under its kind. Nothing but the statistics changes.
    pub fn trace(&mut self, ray: &Ray) -> (r: Option<Interception>)
        ensures
            r == spec_trace(old(self).objects@, *ray),
            final(self).objects@ == old(self).objects@,
            final(self).lights@ == old(self).lights@,
            final(self).stats == old(self).stats.spec_count_ray(ray.kind),
    {
        self.stats.count_ray(ray);
        let mut best: Option<Interception> = None;
        let mut i: usize = 0;
        while i < self.objects.len()
            invariant
                i <= self.objects@.len(),
                self.objects@ == old(self).objects@,
                self.lights@ == old(self).lights@,
                self.stats == old(self).stats.spec_count_ray(ray.kind),
                best == spec_trace(self.objects@.take(i as int), *ray),
            decreases self.objects@.len() - i,
        {
            let o = self.objects[i];
            proof {
                assert(self.objects@.take(i + 1).drop_last() =~= self.objects@.take(i as int));
                assert(self.objects@.take(i + 1).last() == o);
            }
            match o.intercept(ray) {
                Some(d) => {
                    let hit = Interception::new(o, ray, d);
                    best = match best {
                        Some(p) => if hit.distance.raw < p.distance.raw {
                            Some(hit)
                        } else {
                            Some(p)
                        },
                        None => Some(hit),
                    };
                },
                None => {},
            }
            i = i + 1;
        }
        proof {
            assert(self.objects@.take(self.objects@.len() as int) =~= self.objects@);
        }
        best
    }

    /// Every surface has a non-negative reflectance and every light a
    /// non-negative base intensity, so shading factors never turn negative.
    pub open spec fn spec_wf(self) -> bool {
        &&& forall|i: int|
            0 <= i < self.objects@.len() ==> (#[trigger] self.objects@[i]).spec_albedo().raw >= 0
        &&& forall|i: int|
            0 <= i < self.lights@.len() ==> (#[trigger] self.lights@[i]).spec_base_intensity().raw
                >= 0
    }

    /// Shade the hit recorded in `interception`: walk the lights in
    /// registration order, cast one shadow ray toward each, and sum the
    /// contributions of the lights that are not occluded. One shadow ray per
    /// light is counted; nothing else of the scene changes.
    #[verifier::rlimit(100)]
    pub fn compute_color(&mut self, interception: &Interception) -> (color: Color)
        requires
            old(self).spec_wf(),
            interception.object.spec_albedo().raw >= 0,
        ensures
            color == spec_shade(old(self).objects@, old(self).lights@, *interception),
            final(self).objects@ == old(self).objects@,
            final(self).lights@ == old(self).lights@,
            final(self).stats == (Statistics {
                shadow: sat_add_usize(old(self).stats.shadow, old(self).lights@.len() as int),
                ..old(self).stats
            }),
    {
        let ghost orig = *old(self);
        let hitpoint = interception.hitpoint;
        let mut color = Color::default();
        let normal = interception.object.compute_normal(hitpoint);
        let mut k: usize = 0;
        while k < self.lights.len()
            invariant
                k <= self.lights@.len(),
                self.objects@ == orig.objects@,
                self.lights@ == orig.lights@,
                orig.spec_wf(),
                interception.object.spec_albedo().raw >= 0,
                hitpoint == interception.hitpoint,
                normal == interception.object.spec_compute_normal(interception.hitpoint),
                self.stats == (Statistics {
                    shadow: sat_add_usize(orig.stats.shadow, k as int),
                    ..orig.stats
                }),
                color == spec_shade(orig.objects@, orig.lights@.take(k as int), *interception),
            decreases self.lights@.len() - k,
        {
            let light = self.lights[k];
            let light_direction = light.direction_from(hitpoint);
            let shadow_origin = Vertex {
                x: hitpoint.x.add(normal.x.mul(Scalar { raw: EPS_RAW })),
                y: hitpoint.y.add(normal.y.mul(Scalar { raw: EPS_RAW })),
                z: hitpoint.z.add(normal.z.mul(Scalar { raw: EPS_RAW })),
            };
            let shadow_ray = Ray {
                origin: shadow_origin,
                direction: light_direction,
                kind: RayKind::Shadow,
            };
            let traced = self.trace(&shadow_ray);
            let enlighted = match traced {
                Some(i) => i.distance.raw > light.distance(hitpoint).raw,
                None => true,
            };
            proof {
                assert(orig.lights@.take(k + 1).drop_last() =~= orig.lights@.take(k as int));
                assert(orig.lights@.take(k + 1).last() == light);
            }
            if enlighted {
                proof {
                    lemma_intensity_nonneg(light, hitpoint);
                    lemma_mul_nonneg(
                        normal.spec_dot(light.spec_direction_from(hitpoint)).spec_max(
                            Scalar { raw: 0 },
                        ),
                        light.spec_intensity(hitpoint),
                    );
                    lemma_div_nonneg(interception.object.spec_albedo(), Scalar { raw: PI_RAW });
                }
                let power = normal.dot(light_direction).max(Scalar { raw: 0 }).mul(
                    light.intensity(hitpoint),
                );
                let reflected = interception.object.albedo().div(Scalar { raw: PI_RAW });
                let light_color = light.color().mul_scalar(power).mul_scalar(reflected);
                color = color.add(interception.object.color().mul(light_color));
            } else {
                proof {
                    assert(color.spec_color_add(Color::spec_default()) == color);
                }
            }
            k = k + 1;
        }
        proof {
            assert(orig.lights@.take(orig.lights@.len() as int) =~= orig.lights@);
        }
        color
    }

    /// Trace one whole frame into the canvas: cast the primary ray of every
    /// pixel in row-major order, and where it hits, store the shaded color;
    /// where it escapes, leave the pixel as it was. The statistics count one
    /// primary ray per pixel and one shadow ray per light at every hit.
    #[verifier::rlimit(100)]
    pub fn render(&mut self, canvas: &mut Canvas)
        requires
            old(self).spec_wf(),
            old(canvas).wf(),
            old(canvas).width <= u32::MAX,
            old(canvas).height <= u32::MAX,
        ensures
            final(self).objects@ == old(self).objects@,
            final(self).lights@ == old(self).lights@,
            final(self).stats == spec_render_stats(
                old(self).stats,
                old(self).objects@,
                old(self).lights@,
                old(canvas).width as u32,
                old(canvas).height as u32,
                old(canvas).width * old(canvas).height,
            ),
            final(canvas).wf(),
            final(canvas).width == old(canvas).width,
            final(canvas).height == old(canvas).height,
            forall|x: usize, y: usize|
                x < old(canvas).width && y < old(canvas).height ==> final(canvas).spec_get(x, y)
                    == spec_render_pixel(
                    old(self).objects@,
                    old(self).lights@,
                    old(canvas).spec_get(x, y),
                    old(canvas).width as u32,
                    old(canvas).height as u32,
                    x as u32,
                    y as u32,
                ),
    {
        let ghost orig = *old(self);
        let ghost canvas0 = *old(canvas);
        let width = canvas.width;
        let height = canvas.height;
        let w32 = width as u32;
        let h32 = height as u32;
        let n = canvas.pixels.len();
        let mut p: usize = 0;
        while p < n
            invariant
                p <= n,
                n == width * height,
                width == canvas0.width,
                height == canvas0.height,
                w32 == width as u32,
                h32 == height as u32,
                width <= u32::MAX,
                height <= u32::MAX,
                orig.spec_wf(),
                self.objects@ == orig.objects@,
                self.lights@ == orig.lights@,
                self.stats == spec_render_stats(
                    orig.stats,
                    orig.objects@,
                    orig.lights@,
                    w32,
                    h32,
                    p as int,
                ),
                canvas.wf(),
                canvas.width == canvas0.width,
                canvas.height == canvas0.height,
                forall|i: usize, j: usize|
                    i < width && j < height && j * width + i < p ==> canvas.spec_get(i, j)
                        == spec_render_pixel(
                        orig.objects@,
                        orig.lights@,
                        canvas0.spec_get(i, j),
                        w32,
                        h32,
                        i as u32,
                        j as u32,
                    ),
                forall|i: usize, j: usize|
                    i < width && j < height && j * width + i >= p ==> canvas.spec_get(i, j)
                        == canvas0.spec_get(i, j),
            decreases n - p,
        {
            proof {
                assert(width > 0) by {
                    if width == 0 {
                        assert(width * height == 0) by (nonlinear_arith)
                            requires
                                width == 0,
                        ;
                    }
                }
                lemma_pixel_decompose(p as int, width as int, height as int);
            }
            let x = p % width;
            let y = p / width;
            let ray = primary_ray(w32, h32, x as u32, y as u32);
            let traced = self.trace(&ray);
            match traced {
                Some(interception) => {
                    proof {
                        lemma_trace_hit_object(orig.objects@, ray);
                        let oi = choose|oi: int|
                            0 <= oi < orig.objects@.len() && orig.objects@[oi]
                                == interception.object;
                        assert(orig.objects@[oi].spec_albedo().raw >= 0);
                    }
                    let color = self.compute_color(&interception);
                    canvas.set(x, y, color);
                },
                None => {},
            }
            proof {
                assert forall|i: usize, j: usize|
                    i < width && j < height && j * width + i < p + 1 implies canvas.spec_get(i, j)
                    == spec_render_pixel(
                    orig.objects@,
                    orig.lights@,
                    canvas0.spec_get(i, j),
                    w32,
                    h32,
                    i as u32,
                    j as u32,
                ) by {
                    if j * width + i == p {
                        lemma_fundamental_div_mod_converse(
                            p as int,
                            width as int,
                            j as int,
                            i as int,
                        );
                    }
                }
                assert forall|i: usize, j: usize|
                    i < width && j < height && j * width + i >= p + 1 implies canvas.spec_get(i, j)
                    == canvas0.spec_get(i, j) by {
                    if i == x && j == y {
                        assert(j * width + i == p);
                    }
                }
            }
            p = p + 1;
        }
        proof {
            assert forall|x: usize, y: usize| x < width && y < height implies canvas.spec_get(x, y)
                == spec_render_pixel(
                orig.objects@,
                orig.lights@,
                canvas0.spec_get(x, y),
                w32,
                h32,
                x as u32,
                y as u32,
            ) by {
                assert(y * width + x < n) by (nonlinear_arith)
                    requires
                        x < width,
                        y < height,
                        n == width * height,
                ;
            }
        }
    }
}

/// What one rendered pixel shows afterwards: the shaded color of the nearest
/// hit of its primary ray, or whatever it showed before when the ray escapes
/// the scene.
pub open spec fn spec_render_pixel(
    objects: Seq<Object>,
    lights: Seq<Light>,
    before: Pixel,
    width: u32,
    height: u32,
    x: u32,
    y: u32,
) -> Pixel {
    match spec_trace(objects, spec_primary_ray(width, height, x, y)) {
        Some(i) => Pixel::Data(spec_shade(objects, lights, i)),
        None => before,
    }
}

/// The statistics after rendering the first `n` pixels in row-major order:
/// one primary ray per pixel, and one shadow ray per light at each pixel
/// whose primary ray hits something.
pub open spec fn spec_render_stats(
    stats: Statistics,
    objects: Seq<Object>,
    lights: Seq<Light>,
    width: u32,
    height: u32,
    n: int,
) -> Statistics
    decreases n,
{
    if n <= 0 {
        stats
    } else {
        let prev = spec_render_stats(stats, objects, lights, width, height, n - 1);
        let x = ((n - 1) % (width as int)) as u32;
        let y = ((n - 1) / (width as int)) as u32;
        let counted = prev.spec_count_ray(RayKind::Primary);
        match spec_trace(objects, spec_primary_ray(width, height, x, y)) {
            Some(i) => Statistics {
                shadow: sat_add_usize(counted.shadow, lights.len() as int),
                ..counted
            },
            None => counted,
        }
    }
}

/// Tracing keeps the nearest hit: whenever some object reports a hit
/// distance, the traced result exists and stands at most that far.
pub proof fn lemma_trace_is_nearest(objects: Seq<Object>, ray: Ray, i: int)
    requires
        0 <= i < objects.len(),
        objects[i].spec_intercept(ray) is Some,
    ensures
        spec_trace(objects, ray) is Some,
        spec_trace(objects, ray)->Some_0.distance.raw <= objects[i].spec_intercept(
            ray,
        )->Some_0.raw,
    decreases objects.len(),
{
    if i < objects.len() - 1 {
        assert(objects.drop_last()[i] == objects[i]);
        lemma_trace_is_nearest(objects.drop_last(), ray, i);
    }
}

/// Tracing reports a hit exactly when some object reports one.
#[verifier::rlimit(100)]
#[verifier::spinoff_prover]
pub proof fn lemma_trace_hit_iff(objects: Seq<Object>, ray: Ray)
    ensures
        spec_trace(objects, ray) is Some <==> exists|i: int|
            0 <= i < objects.len() && (#[trigger] objects[i].spec_intercept(ray)) is Some,
    decreases objects.len(),
{
    if objects.len() > 0 {
        lemma_trace_hit_iff(objects.drop_last(), ray);
        if objects.last().spec_intercept(ray) is Some {
            assert(objects[objects.len() - 1].spec_intercept(ray) is Some);
        }
        if spec_trace(objects.drop_last(), ray) is Some {
            let j = choose|j: int|
                0 <= j < objects.drop_last().len() && (#[trigger] objects.drop_last()[j].spec_intercept(
                    ray,
                )) is Some;
            assert(objects[j].spec_intercept(ray) is Some);
        }
        if exists|i: int|
            0 <= i < objects.len() && (#[trigger] objects[i].spec_intercept(ray)) is Some {
            let i = choose|i: int|
                0 <= i < objects.len() && (#[trigger] objects[i].spec_intercept(ray)) is Some;
            if i < objects.len() - 1 {
                assert(objects.drop_last()[i].spec_intercept(ray) is Some);
            }
        }
    }
}

/// The distance of a traced hit is never negative.
pub proof fn lemma_trace_distance_nonneg(objects: Seq<Object>, ray: Ray)
    ensures
        spec_trace(objects, ray) is Some ==> spec_trace(objects, ray)->Some_0.distance.raw >= 0,
    decreases objects.len(),
{
    if objects.len() > 0 {
        lemma_trace_distance_nonneg(objects.drop_last(), ray);
        objects::lemma_intercept_distance_nonneg(objects.last(), ray);
    }
}

/// A hit reported by `spec_trace` always carries one of the traced objects.
pub proof fn lemma_trace_hit_object(objects: Seq<Object>, ray: Ray)
    ensures
        spec_trace(objects, ray) is Some ==> objects.contains(
            spec_trace(objects, ray)->Some_0.object,
        ),
    decreases objects.len(),
{
    if objects.len() > 0 {
        lemma_trace_hit_object(objects.drop_last(), ray);
        assert(objects.contains(objects.last())) by {
            assert(objects[objects.len() - 1] == objects.last());
        }
        if spec_trace(objects.drop_last(), ray) is Some {
            let o = spec_trace(objects.drop_last(), ray)->Some_0.object;
            let i = choose|i: int| 0 <= i < objects.drop_last().len() && objects.drop_last()[i] == o;
            assert(objects[i] == o);
        }
    }
}

/// An in-range pixel index splits uniquely into a column and a row.
proof fn lemma_pixel_decompose(p: int, w: int, h: int)
    requires
        0 <= p < w * h,
        w > 0,
    ensures
        0 <= p % w < w,
        0 <= p / w < h,
        (p / w) * w + (p % w) == p,
{
    vstd::arithmetic::div_mod::lemma_fundamental_div_mod(p, w);
    vstd::arithmetic::div_mod::lemma_mod_bound(p, w);
    vstd::arithmetic::div_mod::lemma_div_pos_is_pos(p, w);
    let q = p / w;
    let r = p % w;
    assert(q * w == w * q) by (nonlinear_arith);
    assert(q < h) by (nonlinear_arith)
        requires
            p == w * q + r,
            0 <= r < w,
            p < w * h,
            w > 0,
    ;
}

/// A full row of pixels stays within the pixel count.
proof fn lemma_row_bound(y: int, w: int, h: int)
    requires
        0 <= y < h,
        0 <= w,
    ensures
        y * w + w <= w * h,
        0 <= y * w,
    decreases h,
{
    assert(y * w + w <= w * h && 0 <= y * w) by (nonlinear_arith)
        requires
            0 <= y < h,
            0 <= w,
    ;
}

} // verus!
