use rustracer::distance::Distance;
use rustracer::scene::{PrimitivesWithMaterials, Scene};

type Vertices = [[f32; 3]; 3];

/// (emission, diffuse)
type Mat = ([f32; 3], [f32; 3]);

fn dist(x: f32) -> Option<Distance> {
    Some(Distance::from_bits(x.to_bits()))
}

const BLACK: [f32; 3] = [0.0, 0.0, 0.0];
const WHITE: [f32; 3] = [1.0, 1.0, 1.0];

#[test]
fn test_getters() {
    let mut primitives: PrimitivesWithMaterials<Vertices, Mat> = PrimitivesWithMaterials::new();
    primitives.add(
        [[1.0, -1.0, 1.1], [0.0, 1.0, 1.1], [-1.0, -1.0, 1.1]],
        (BLACK, BLACK),
    );
    primitives.add(
        [[1.0, -1.0, 1.0], [0.0, 1.0, 1.0], [-1.0, -1.0, 1.0]],
        (WHITE, BLACK),
    );
    assert_eq!(
        [[1.0, -1.0, 1.0], [0.0, 1.0, 1.0], [-1.0, -1.0, 1.0]],
        *primitives.get_primitive(1)
    );
    assert_eq!((WHITE, BLACK), *primitives.get_material(1));
    assert_eq!(primitives.len(), 2);
}

// The ray of the following cases starts at (0, 0, -1) and points along +z:
// a triangle in the plane z = c around the axis is hit at distance c + 1.

#[test]
fn closest_hit_is_empty_for_empty_list() {
    let primitives: PrimitivesWithMaterials<Vertices, Mat> = PrimitivesWithMaterials::new();
    assert_eq!(None, primitives.closest_hit(&vec![]));
}

#[test]
fn closest_hit_is_empty_for_miss() {
    let mut primitives: PrimitivesWithMaterials<Vertices, Mat> = PrimitivesWithMaterials::new();
    primitives.add([[2.0, 2.0, 0.0], [1.5, 2.5, 0.0], [1.0, 2.0, 0.0]], (BLACK, BLACK));
    assert_eq!(None, primitives.closest_hit(&vec![None]));
}

#[test]
fn closest_hit_is_nonempty_for_hit() {
    let mut primitives: PrimitivesWithMaterials<Vertices, Mat> = PrimitivesWithMaterials::new();
    primitives.add([[1.0, -1.0, 0.0], [0.0, 1.0, 0.0], [-1.0, -1.0, 0.0]], (BLACK, BLACK));
    assert_eq!(Some(0), primitives.closest_hit(&vec![dist(1.0)]));
}

#[test]
fn closest_hit_chooses_closest_primitive_on_hit() {
    let mut primitives: PrimitivesWithMaterials<Vertices, Mat> = PrimitivesWithMaterials::new();
    primitives.add([[1.0, -1.0, 1.1], [0.0, 1.0, 1.1], [-1.0, -1.0, 1.1]], (BLACK, BLACK));
    primitives.add([[1.0, -1.0, 1.0], [0.0, 1.0, 1.0], [-1.0, -1.0, 1.0]], (BLACK, BLACK));
    let d = vec![dist(1.1 + 1.0), dist(1.0 + 1.0)];
    assert_eq!(Some(1), primitives.closest_hit(&d));
}

fn unit_store(n: usize) -> PrimitivesWithMaterials<usize, ()> {
    let mut p = PrimitivesWithMaterials::new();
    for i in 0..n {
        p.add(i, ());
    }
    p
}

#[test]
fn closest_hit_keeps_first_of_equal_distances() {
    let p = unit_store(3);
    assert_eq!(Some(1), p.closest_hit(&vec![dist(3.0), dist(2.0), dist(2.0)]));
}

#[test]
fn closest_hit_treats_both_zeros_as_equal() {
    let p = unit_store(2);
    assert_eq!(Some(0), p.closest_hit(&vec![dist(0.0), dist(-0.0)]));
    assert_eq!(Some(0), p.closest_hit(&vec![dist(-0.0), dist(0.0)]));
}

#[test]
fn closest_hit_passes_over_nan() {
    let p = unit_store(3);
    assert_eq!(Some(2), p.closest_hit(&vec![dist(f32::NAN), None, dist(5.0)]));
    assert_eq!(Some(1), p.closest_hit(&vec![dist(4.0), dist(0.5), dist(-f32::NAN)]));
    assert_eq!(None, p.closest_hit(&vec![dist(f32::NAN), None, dist(f32::NAN)]));
}

#[test]
fn closest_hit_orders_infinity_last() {
    let p = unit_store(2);
    assert_eq!(Some(1), p.closest_hit(&vec![dist(f32::INFINITY), dist(1.0e30)]));
}

#[test]
fn closest_hit_matches_float_minimum() {
    let values = [7.5f32, 0.25, 3.0, 1.0e-3, 12.0, 0.25, 9.0];
    let p = unit_store(values.len());
    let d: Vec<Option<Distance>> = values.iter().map(|v| dist(*v)).collect();
    assert_eq!(Some(3), p.closest_hit(&d));
}

#[test]
fn scene_keeps_settings_and_primitives_in_order() {
    let mut scene: Scene<Vertices, Mat> = Scene::new((WHITE, BLACK), 2, 3);
    assert_eq!(scene.get_recursion_depth(), 2);
    assert_eq!(scene.get_beam_rays_count(), 3);
    assert_eq!(*scene.get_default_material(), (WHITE, BLACK));
    assert_eq!(scene.get_primitives().len(), 0);
    scene.add_triangle([[1.0, -1.0, 0.0], [0.0, 1.0, 0.0], [-1.0, -1.0, 0.0]], (BLACK, WHITE));
    scene.add_triangle([[2.0, 2.0, 0.0], [1.5, 2.5, 0.0], [1.0, 2.0, 0.0]], (WHITE, WHITE));
    assert_eq!(scene.get_primitives().len(), 2);
    assert_eq!(*scene.get_primitives().get_material(0), (BLACK, WHITE));
    assert_eq!(
        *scene.get_primitives().get_primitive(1),
        [[2.0, 2.0, 0.0], [1.5, 2.5, 0.0], [1.0, 2.0, 0.0]]
    );
}
