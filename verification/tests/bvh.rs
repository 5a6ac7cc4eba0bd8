use wiw::{BVHTree, BvhNode, Sphere, Vec3Fp};

const FP: i64 = 65536;

fn sphere(x: i64, y: i64, z: i64, r: i64, m: u32) -> Sphere {
    Sphere::new(Vec3Fp::new(x, y, z), r, m)
}

fn build(mut spheres: Vec<Sphere>) -> (BVHTree, Vec<Sphere>) {
    let mut tree = BVHTree::new(spheres.len());
    tree.build_bvh_tree(&mut spheres);
    (tree, spheres)
}

/// Runtime check of the structural invariants: leaf ranges tile [0, n) in
/// array order, and every internal node's box contains its children's boxes.
fn check_well_formed(nodes: &Vec<BvhNode>, n: usize) {
    let expected = if n == 0 { 1 } else { 2 * n - 1 };
    assert_eq!(nodes.len(), expected);
    if n == 0 {
        return;
    }
    let mut next_start = 0usize;
    for node in nodes.iter() {
        if node.count > 0 {
            assert_eq!(node.left, next_start);
            next_start += node.count;
        }
    }
    assert_eq!(next_start, n);
    for (j, node) in nodes.iter().enumerate() {
        if node.count == 0 {
            assert!(node.left < j);
            assert!(node.right < j);
            let l = &nodes[node.left];
            let r = &nodes[node.right];
            for c in [l, r] {
                assert!(node.min.x <= c.min.x && c.max.x <= node.max.x);
                assert!(node.min.y <= c.min.y && c.max.y <= node.max.y);
                assert!(node.min.z <= c.min.z && c.max.z <= node.max.z);
            }
        }
    }
}

#[test]
fn two_sphere_scene_builds_three_nodes() {
    let ground = sphere(0, -100 * FP - FP / 2, -FP, 100 * FP, 0);
    let subject = sphere(0, 0, -FP, FP / 2, 1);
    let (tree, spheres) = build(vec![ground, subject]);
    assert_eq!(tree.nodes.len(), 3);
    let leaves = tree.nodes.iter().filter(|n| n.count > 0).count();
    let internal = tree.nodes.iter().filter(|n| n.count == 0).count();
    assert_eq!(leaves, 2);
    assert_eq!(internal, 1);
    check_well_formed(&tree.nodes, 2);
    assert_eq!(spheres.len(), 2);
}

#[test]
fn empty_scene_builds_single_node() {
    let (tree, spheres) = build(vec![]);
    assert_eq!(tree.nodes.len(), 1);
    assert!(spheres.is_empty());
}

#[test]
fn single_sphere_builds_single_leaf() {
    let (tree, _) = build(vec![sphere(FP, 2 * FP, 3 * FP, FP, 0)]);
    assert_eq!(tree.nodes.len(), 1);
    let root = &tree.nodes[0];
    assert_eq!(root.count, 1);
    assert_eq!(root.left, 0);
    assert_eq!(root.min.x, 0);
    assert_eq!(root.max.x, 2 * FP);
}

#[test]
fn node_count_is_two_n_minus_one() {
    for n in 1..9i64 {
        let spheres: Vec<Sphere> = (0..n).map(|i| sphere(i * FP, 0, 0, FP / 4, 0)).collect();
        let (tree, out) = build(spheres);
        assert_eq!(tree.nodes.len(), (2 * n - 1) as usize);
        assert_eq!(out.len(), n as usize);
        check_well_formed(&tree.nodes, n as usize);
    }
}

#[test]
fn build_is_deterministic() {
    let make = || {
        vec![
            sphere(3 * FP, FP, 0, FP / 2, 0),
            sphere(-2 * FP, 0, FP, FP / 3, 1),
            sphere(0, 5 * FP, -FP, FP, 2),
            sphere(7 * FP, -3 * FP, 2 * FP, FP / 4, 0),
            sphere(FP, FP, FP, FP / 2, 1),
        ]
    };
    let (tree1, out1) = build(make());
    let (tree2, out2) = build(make());
    assert_eq!(tree1.nodes, tree2.nodes);
    assert_eq!(out1, out2);
}

#[test]
fn material_indices_travel_with_spheres() {
    let spheres = vec![
        sphere(10 * FP, 0, 0, FP, 7),
        sphere(-10 * FP, 0, 0, FP, 3),
        sphere(0, 0, 0, FP, 5),
    ];
    let (_, out) = build(spheres);
    let mut mats: Vec<u32> = out.iter().map(|s| s.material_idx).collect();
    mats.sort();
    assert_eq!(mats, vec![3, 5, 7]);
    for s in out.iter() {
        match s.material_idx {
            7 => assert_eq!(s.center.x, 10 * FP),
            3 => assert_eq!(s.center.x, -10 * FP),
            5 => assert_eq!(s.center.x, 0),
            _ => panic!("unexpected material index"),
        }
    }
}

#[test]
fn coincident_spheres_still_partition() {
    let spheres = vec![
        sphere(0, 0, 0, FP, 0),
        sphere(0, 0, 0, FP, 1),
        sphere(0, 0, 0, FP, 2),
    ];
    let (tree, out) = build(spheres);
    assert_eq!(tree.nodes.len(), 5);
    check_well_formed(&tree.nodes, 3);
    assert_eq!(out.len(), 3);
}
