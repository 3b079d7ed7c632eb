use rusty::graphics::{Canvas, Color, Pixel};
use rusty::math::scalar::Scalar;
use rusty::math::vec3::{Vector, Vertex};
use rusty::tracer::lights::{DirectionalLight, Light, SphericalLight};
use rusty::tracer::objects::{Object, Plane, Sphere};
use rusty::tracer::{Interception, Ray, RayKind, Scene, Screen, Statistics};

fn s(i: i64) -> Scalar {
    Scalar::from_int(i)
}

fn vertex(x: i64, y: i64, z: i64) -> Vertex {
    Vertex {
        x: s(x),
        y: s(y),
        z: s(z),
    }
}

fn vector(x: i64, y: i64, z: i64) -> Vector {
    Vector {
        x: s(x),
        y: s(y),
        z: s(z),
    }
}

fn white() -> Color {
    Color::from_str("#FFFFFF").unwrap()
}

fn demo_sphere() -> Sphere {
    Sphere {
        center: vertex(0, 0, -10),
        radius: s(2),
        base_color: Color::from_str("#00FFFF").unwrap(),
        base_albedo: Scalar::from_ratio(1, 2),
    }
}

#[test]
fn sphere_front_surface() {
    // The ray down the axis meets the front of the sphere at distance 8 and
    // the back at 12; the nearest-positive-root policy must pick 8.
    let sphere = demo_sphere();
    let ray = Ray {
        kind: RayKind::Primary,
        origin: vertex(0, 0, 0),
        direction: vector(0, 0, -1),
    };
    assert_eq!(sphere.intercept(&ray), Some(s(8)));
}

#[test]
fn sphere_behind_ray_misses() {
    let sphere = demo_sphere();
    let ray = Ray {
        kind: RayKind::Primary,
        origin: vertex(0, 0, 0),
        direction: vector(0, 0, 1),
    };
    assert_eq!(sphere.intercept(&ray), None);
}

#[test]
fn plane_one_sidedness() {
    let plane = Plane {
        point: vertex(0, -5, 0),
        normal: vector(0, -1, 0),
        base_color: white(),
        base_albedo: Scalar::from_ratio(1, 2),
    };
    // Moving along the stored normal: the product is positive, the plane is
    // visible at distance 5.
    let toward = Ray {
        kind: RayKind::Primary,
        origin: vertex(0, 0, 0),
        direction: vector(0, -1, 0),
    };
    assert_eq!(plane.intercept(&toward), Some(s(5)));
    // Approaching from the other side: the unsigned geometry still crosses
    // the plane, but the one-sided policy reports no intersection.
    let from_behind = Ray {
        kind: RayKind::Primary,
        origin: vertex(0, -10, 0),
        direction: vector(0, 1, 0),
    };
    assert_eq!(plane.intercept(&from_behind), None);
}

#[test]
fn plane_normal_is_flipped() {
    let plane = Plane {
        point: vertex(0, -5, 0),
        normal: vector(0, -1, 0),
        base_color: white(),
        base_albedo: Scalar::from_ratio(1, 2),
    };
    assert_eq!(plane.compute_normal(vertex(0, -5, 3)), vector(0, 1, 0));
}

#[test]
fn spherical_light_measures() {
    let light = SphericalLight {
        position: vertex(0, 3, 4),
        base_color: white(),
        base_intensity: s(1000),
    };
    assert_eq!(light.distance(vertex(0, 0, 0)), s(5));
    // 1000 spread over a sphere of radius 5: 1000 / (4 * pi * 25), evaluated
    // on the fixed-point grid.
    assert_eq!(light.intensity(vertex(0, 0, 0)), Scalar { raw: 208607 });
    let dir = light.direction_from(vertex(0, 0, 0));
    assert_eq!(dir.z.raw, 52428);
    assert_eq!(dir.y.raw, 39321);
    assert_eq!(dir.x.raw, 0);
}

#[test]
fn directional_light_measures() {
    let light = DirectionalLight {
        direction: vector(0, 0, -3),
        base_color: white(),
        base_intensity: Scalar::from_ratio(3, 5),
    };
    let anywhere = vertex(7, -2, 4);
    assert_eq!(light.direction_from(anywhere), vector(0, 0, 1));
    assert_eq!(light.distance(anywhere).raw, i64::MAX);
    assert_eq!(light.intensity(anywhere), Scalar::from_ratio(3, 5));
}

fn shaded_hit() -> (Interception, Ray) {
    let ray = Ray {
        kind: RayKind::Primary,
        origin: vertex(0, 0, 0),
        direction: vector(0, 0, -1),
    };
    let hit = Interception::new(Object::Sphere(demo_sphere()), &ray, s(8));
    (hit, ray)
}

#[test]
fn unoccluded_light_contributes() {
    let mut scene = Scene::default();
    scene.add_object(Object::Sphere(demo_sphere()));
    scene.add_light(Light::Spherical(SphericalLight {
        position: vertex(0, 0, -4),
        base_color: white(),
        base_intensity: s(1000),
    }));
    let (hit, _ray) = shaded_hit();
    let color = scene.compute_color(&hit);
    assert!(color.r > 0 || color.g > 0 || color.b > 0);
    assert_eq!(scene.stats.shadow, 1);
}

#[test]
fn occluded_light_contributes_nothing() {
    // The same configuration, with an opaque sphere standing between the
    // light and the shaded point: the light's contribution must vanish.
    let mut scene = Scene::default();
    scene.add_object(Object::Sphere(demo_sphere()));
    scene.add_object(Object::Sphere(Sphere {
        center: vertex(0, 0, -6),
        radius: s(1),
        base_color: white(),
        base_albedo: Scalar::from_ratio(1, 2),
    }));
    scene.add_light(Light::Spherical(SphericalLight {
        position: vertex(0, 0, -4),
        base_color: white(),
        base_intensity: s(1000),
    }));
    let (hit, _ray) = shaded_hit();
    let color = scene.compute_color(&hit);
    assert_eq!(color, Color::default());
    assert_eq!(scene.stats.shadow, 1);
}

#[test]
fn trace_picks_nearest_object() {
    let mut scene = Scene::default();
    scene.add_object(Object::Sphere(demo_sphere()));
    scene.add_object(Object::Sphere(Sphere {
        center: vertex(0, 0, -6),
        radius: s(1),
        base_color: white(),
        base_albedo: Scalar::from_ratio(1, 2),
    }));
    let ray = Ray {
        kind: RayKind::Primary,
        origin: vertex(0, 0, 0),
        direction: vector(0, 0, -1),
    };
    let hit = scene.trace(&ray).unwrap();
    assert_eq!(hit.distance, s(5));
    assert_eq!(hit.hitpoint, vertex(0, 0, -5));
}

#[test]
fn statistics_count_by_kind() {
    let mut scene = Scene::default();
    scene.add_object(Object::Sphere(demo_sphere()));
    let primary = Ray {
        kind: RayKind::Primary,
        origin: vertex(0, 0, 0),
        direction: vector(0, 0, -1),
    };
    let shadow = Ray {
        kind: RayKind::Shadow,
        origin: vertex(0, 0, 0),
        direction: vector(0, 1, 0),
    };
    scene.trace(&primary);
    scene.trace(&primary);
    scene.trace(&shadow);
    assert_eq!(scene.stats.primary, 2);
    assert_eq!(scene.stats.shadow, 1);
    assert_eq!(scene.stats.reflection, 0);
    assert_eq!(scene.stats.refraction, 0);
    assert_eq!(scene.stats.count(&RayKind::Primary), 2);
    let fresh = Statistics::default();
    assert_eq!(fresh.primary, 0);
}

#[test]
fn screen_hands_out_every_pixel_once() {
    let mut screen = Screen::new(2, 2);
    let mut seen = Vec::new();
    while let Some((point, ray)) = screen.next() {
        assert_eq!(ray.kind, RayKind::Primary);
        assert_eq!(ray.origin, vertex(0, 0, 0));
        seen.push(point);
    }
    assert_eq!(seen, vec![(0, 0), (1, 0), (0, 1), (1, 1)]);
    assert!(screen.next().is_none());
}

#[test]
fn screen_center_ray_points_down_the_axis() {
    let mut screen = Screen::new(1, 1);
    let (point, ray) = screen.next().unwrap();
    assert_eq!(point, (0, 0));
    assert_eq!(ray.direction, vector(0, 0, -1));
}

#[test]
fn end_to_end_silhouette() {
    // One sphere, no lights: rendering must paint exactly the pixels inside
    // the sphere's silhouette, and paint them black, since no light
    // contributes anything.
    let mut scene = Scene::default();
    scene.add_object(Object::Sphere(demo_sphere()));
    let mut canvas = Canvas::new(10, 10);
    scene.render(&mut canvas);
    let mut hits = Vec::new();
    for y in 0..10 {
        for x in 0..10 {
            match canvas.get(x, y) {
                Pixel::Data(c) => {
                    assert_eq!(c, Color::default());
                    hits.push((x, y));
                }
                Pixel::Blank => {}
            }
        }
    }
    assert_eq!(hits, vec![(4, 4), (5, 4), (4, 5), (5, 5)]);
    assert_eq!(scene.stats.primary, 100);
    assert_eq!(scene.stats.shadow, 0);
}

#[test]
fn rendered_frame_marks_canvas_dirty() {
    let mut scene = Scene::default();
    scene.add_object(Object::Sphere(demo_sphere()));
    let mut canvas = Canvas::new(10, 10);
    assert!(!canvas.dirty);
    scene.render(&mut canvas);
    assert!(canvas.dirty);
}
