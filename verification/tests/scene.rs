use wiw::{Material, Scene, SceneError, Sphere, Vec3Fp};

const FP: i64 = 65536;
const LIMIT: i64 = 576460752303423488;

fn materials() -> Vec<Material> {
    vec![
        Material::Lambertian(Vec3Fp::new(FP / 2, FP / 2, 0)),
        Material::Metal(Vec3Fp::new(FP, FP / 2, FP / 4), FP / 10),
        Material::Dielectric(3 * FP / 2),
    ]
}

#[test]
fn valid_scene_is_accepted() {
    let spheres = vec![
        Sphere::new(Vec3Fp::new(0, 0, -FP), FP / 2, 0),
        Sphere::new(Vec3Fp::new(FP, 0, -FP), FP / 2, 2),
    ];
    let scene = Scene::new(spheres, materials()).expect("valid");
    assert_eq!(scene.spheres.len(), 2);
    assert_eq!(scene.materials.len(), 3);
}

#[test]
fn out_of_range_material_index_is_rejected() {
    let spheres = vec![
        Sphere::new(Vec3Fp::new(0, 0, -FP), FP / 2, 0),
        Sphere::new(Vec3Fp::new(FP, 0, -FP), FP / 2, 3),
    ];
    let err = Scene::new(spheres, materials()).unwrap_err();
    assert_eq!(err, SceneError::MaterialIndexOutOfRange);
}

#[test]
fn negative_radius_is_rejected() {
    let spheres = vec![Sphere::new(Vec3Fp::new(0, 0, 0), -FP, 0)];
    let err = Scene::new(spheres, materials()).unwrap_err();
    assert_eq!(err, SceneError::SphereOutOfBounds);
}

#[test]
fn oversized_coordinate_is_rejected() {
    let spheres = vec![Sphere::new(Vec3Fp::new(LIMIT + 1, 0, 0), FP, 0)];
    let err = Scene::new(spheres, materials()).unwrap_err();
    assert_eq!(err, SceneError::SphereOutOfBounds);
}

#[test]
fn empty_scene_is_valid() {
    let scene = Scene::new(vec![], vec![]).expect("empty");
    assert!(scene.spheres.is_empty());
}
