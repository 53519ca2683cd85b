use rayon::iter::{IntoParallelIterator, ParallelIterator};
use raytracer::driver::{pixel_ray, render, rgba_bytes};
use raytracer::integrator::shade;
use raytracer::{calculate_color, Color, Object, Ray, Scene, Sphere, Vector3};

const M: i32 = 1_000_000;

fn red_sphere() -> Object {
    Object::Sphere(Sphere { center: Vector3::new(11 * M, 3 * M, 0), size: 3 * M, color: Color::red() })
}

fn three_spheres(background: Color) -> Scene {
    let mut scene = Scene::new(background);
    scene.add(red_sphere());
    scene.add(Object::Sphere(Sphere {
        center: Vector3::new(9 * M, -2_500_000, -2_500_000),
        size: 3 * M,
        color: Color::green(),
    }));
    scene.add(Object::Sphere(Sphere {
        center: Vector3::new(10 * M, -1_500_000, 3_500_000),
        size: 3 * M,
        color: Color::blue(),
    }));
    scene
}

fn gallery() -> Scene {
    let mut scene = three_spheres(Color::black());
    scene.ambient_lights.push(Color::new(100_000, 100_000, 100_000));
    scene.directional_lights.push((Vector3::new(0, 0, M), Color::white()));
    scene
}

fn busy_gallery() -> Scene {
    let mut scene = three_spheres(Color::new(50_000, 60_000, 70_000));
    scene.ambient_lights.push(Color::new(100_000, 100_000, 100_000));
    scene.ambient_lights.push(Color::new(0, 50_000, 0));
    scene.directional_lights.push((Vector3::new(0, 0, M), Color::white()));
    scene.directional_lights.push((Vector3::new(-M, 0, 0), Color::new(0, 0, 500_000)));
    scene
}

fn corner_scene() -> Scene {
    let mut scene = Scene::new(Color::new(10, 20, 30));
    scene.ambient_lights.push(Color::new(100_000, 100_000, 100_000));
    scene.directional_lights.push((Vector3::new(0, 0, M), Color::white()));
    scene.directional_lights.push((Vector3::new(0, M, 0), Color::green()));
    scene.add(Object::Sphere(Sphere {
        center: Vector3::new(10 * M, -6 * M, -6 * M),
        size: 3 * M,
        color: Color::red(),
    }));
    scene
}

#[test]
fn miss_returns_background() {
    let scene = busy_gallery();
    let ray = Ray { start: Vector3::new(0, 0, 0), direction: Vector3::new(-M, 0, 0) };
    assert_eq!(scene.calculate_hit(&ray, None), None);
    assert_eq!(calculate_color(&scene, ray, 0), scene.background_color);
    assert_eq!(calculate_color(&scene, ray, 1), scene.background_color);
    assert_eq!(calculate_color(&scene, ray, 10), scene.background_color);
    assert_eq!(calculate_color(&scene, pixel_ray(0, 0), 10), Color::new(50_000, 60_000, 70_000));
}

#[test]
fn zero_bounces_returns_background() {
    let scene = busy_gallery();
    assert!(scene.calculate_hit(&pixel_ray(300, 300), None).is_some());
    assert_eq!(calculate_color(&scene, pixel_ray(300, 300), 0), Color::new(50_000, 60_000, 70_000));
    assert_eq!(calculate_color(&scene, pixel_ray(330, 260), 0), Color::new(50_000, 60_000, 70_000));
}

#[test]
fn empty_scene_is_all_background() {
    let scene = Scene::new(Color::new(1, 2, 3));
    assert_eq!(calculate_color(&scene, pixel_ray(300, 300), 10), Color::new(1, 2, 3));
    assert_eq!(render(&scene, 2, 2, 5), vec![Color::new(1, 2, 3); 4]);
}

#[test]
fn red_sphere_head_on() {
    let mut scene = Scene::new(Color::black());
    scene.ambient_lights.push(Color::new(100_000, 100_000, 100_000));
    scene.directional_lights.push((Vector3::new(0, 0, M), Color::white()));
    scene.add(red_sphere());
    let ray = Ray { start: Vector3::new(0, 3 * M, 0), direction: Vector3::new(M, 0, 0) };
    let hit = scene.calculate_hit(&ray, None).unwrap();
    assert_eq!(hit.distance, 8 * M);
    assert_eq!(hit.position, Vector3::new(8 * M, 3 * M, 0));
    assert_eq!(hit.normal, Vector3::new(-M, 0, 0));
    let c = calculate_color(&scene, ray, 10);
    assert!(c.r > 100_000);
    assert_eq!(c, Color::new(1_100_000, 100_000, 100_000));
}

#[test]
fn shade_adds_facing_lights_then_ambient() {
    let scene = busy_gallery();
    let hit = scene.calculate_hit(&pixel_ray(300, 300), None).unwrap();
    assert_eq!(hit.object, 0);
    assert_eq!(hit.distance, 9_418_862);
    assert_eq!(hit.normal, Vector3::new(-527_047, -833_334, 166_666));
    assert_eq!(shade(&scene, &hit), Color::new(1_266_666, 316_666, 530_189));
}

#[test]
fn shade_without_lights_is_the_object_color() {
    let scene = three_spheres(Color::black());
    let hit = scene.calculate_hit(&pixel_ray(300, 300), None).unwrap();
    assert_eq!(shade(&scene, &hit), Color::red());
}

#[test]
fn bounces_blend_with_shrinking_weight() {
    let scene = busy_gallery();
    let ray = pixel_ray(300, 300);
    assert_eq!(calculate_color(&scene, ray, 1), Color::new(1_266_666, 316_666, 530_189));
    assert_eq!(calculate_color(&scene, ray, 2), Color::new(1_149_999, 299_999, 588_822));
    assert_eq!(calculate_color(&scene, ray, 3), Color::new(1_135_184, 380_184, 602_065));
    assert_eq!(calculate_color(&scene, ray, 10), Color::new(1_135_184, 380_184, 602_065));
    let other = pixel_ray(330, 260);
    assert_eq!(calculate_color(&scene, other, 1), Color::new(1_100_000, 150_000, 483_695));
    assert_eq!(calculate_color(&scene, other, 2), Color::new(1_065_890, 315_890, 520_562));
    assert_eq!(calculate_color(&scene, other, 10), Color::new(1_065_890, 315_890, 520_562));
}

#[test]
fn gallery_pixels() {
    let scene = gallery();
    assert_eq!(calculate_color(&scene, pixel_ray(0, 0), 10), Color::black());
    assert_eq!(calculate_color(&scene, pixel_ray(275, 425), 10), Color::new(100_000, 100_000, 1_100_000));
    assert_eq!(calculate_color(&scene, pixel_ray(300, 300), 10), Color::new(1_135_184, 330_184, 375_184));
    assert_eq!(calculate_color(&scene, pixel_ray(200, 200), 10), Color::new(433_333, 1_433_333, 433_333));
    assert_eq!(calculate_color(&scene, pixel_ray(400, 300), 10), Color::new(1_266_666, 266_666, 266_666));
    assert_eq!(calculate_color(&scene, pixel_ray(330, 260), 10), Color::new(1_065_890, 265_890, 165_890));
}

#[test]
fn pixel_ray_maps_the_grid_to_the_camera_plane() {
    let ray = pixel_ray(0, 0);
    assert_eq!(ray.start, Vector3::new(0, -5_500_000, -5_500_000));
    assert_eq!(ray.direction, Vector3::new(M, 0, 0));
    assert_eq!(pixel_ray(275, 425).start, Vector3::new(0, 0, 3 * M));
    assert_eq!(pixel_ray(2, 1).start, Vector3::new(0, -5_460_000, -5_480_000));
    assert_eq!(pixel_ray(u32::MAX, 275).start, Vector3::new(0, i32::MAX, 0));
}

#[test]
fn render_walks_the_first_coordinate_outermost() {
    let scene = corner_scene();
    let pixels = render(&scene, 3, 2, 10);
    assert_eq!(
        pixels,
        vec![
            Color::new(1_266_666, 433_332, 266_666),
            Color::new(1_273_333, 439_999, 273_333),
            Color::new(1_266_666, 439_999, 266_666),
            Color::new(1_273_333, 446_666, 273_333),
            Color::new(1_266_666, 446_666, 266_666),
            Color::new(1_273_333, 453_333, 273_333),
        ]
    );
    for x in 0..3u32 {
        for y in 0..2u32 {
            let at: usize = (x * 2 + y) as usize;
            assert_eq!(pixels[at], calculate_color(&scene, pixel_ray(x, y), 10));
        }
    }
}

#[test]
fn render_of_an_empty_grid() {
    let scene = corner_scene();
    assert!(render(&scene, 0, 5, 10).is_empty());
    assert!(render(&scene, 5, 0, 10).is_empty());
}

#[test]
fn render_twice_gives_the_same_pixels() {
    let scene = gallery();
    assert_eq!(render(&scene, 8, 8, 10), render(&scene, 8, 8, 10));
}

#[test]
fn rgba_bytes_interleaves_four_channels() {
    let scene = corner_scene();
    let bytes = rgba_bytes(&render(&scene, 3, 2, 10));
    assert_eq!(
        bytes,
        vec![
            255, 110, 67, 255, 255, 112, 69, 255, 255, 112, 67, 255, 255, 113, 69, 255, 255, 113,
            67, 255, 255, 115, 69, 255,
        ]
    );
    assert!(rgba_bytes(&Vec::new()).is_empty());
}

#[test]
fn threaded_grid_matches_the_sequential_one() {
    let scene = gallery();
    let width: u32 = 12;
    let height: u32 = 9;
    let cells: Vec<(u32, u32)> = (0..width)
        .flat_map(|x| (0..height).map(move |y| (x * 40, y * 60)))
        .collect();
    let sequential: Vec<Color> = cells
        .iter()
        .map(|&(x, y)| calculate_color(&scene, pixel_ray(x, y), 10))
        .collect();
    let threaded: Vec<Color> = cells
        .clone()
        .into_par_iter()
        .map(|(x, y)| calculate_color(&scene, pixel_ray(x, y), 10))
        .collect();
    assert_eq!(threaded, sequential);
    assert!(sequential.iter().any(|c| *c != Color::black()));
    let grid = render(&scene, 4, 3, 10);
    let gathered: Vec<Color> = (0..12u32)
        .into_par_iter()
        .map(|k| calculate_color(&scene, pixel_ray(k / 3, k % 3), 10))
        .collect();
    assert_eq!(gathered, grid);
}
