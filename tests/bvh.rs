use pathtracer::{build_layout, BvhLayout, Centroid};

fn leaves(t: &BvhLayout, out: &mut Vec<usize>) {
    match t {
        BvhLayout::Leaf { item } => out.push(*item),
        BvhLayout::Node { left, right, .. } => {
            leaves(left, out);
            leaves(right, out);
        }
    }
}

fn key(c: &Centroid, axis: usize) -> u64 {
    match axis {
        0 => c.x,
        1 => c.y,
        _ => c.z,
    }
}

fn height(t: &BvhLayout) -> usize {
    match t {
        BvhLayout::Leaf { .. } => 0,
        BvhLayout::Node { left, right, .. } => 1 + height(left).max(height(right)),
    }
}

/// Checks the median split, the axis cycle and the key order at every node.
fn check(t: &BvhLayout, cs: &[Centroid], axis: usize) {
    if let BvhLayout::Node { axis: a, left, right } = t {
        assert_eq!(*a, axis);
        let (mut l, mut r) = (Vec::new(), Vec::new());
        leaves(left, &mut l);
        leaves(right, &mut r);
        assert_eq!(l.len(), (l.len() + r.len()) / 2);
        let lmax = l.iter().map(|&i| key(&cs[i], axis)).max().unwrap();
        let rmin = r.iter().map(|&i| key(&cs[i], axis)).min().unwrap();
        assert!(lmax <= rmin);
        check(left, cs, (axis + 1) % 3);
        check(right, cs, (axis + 1) % 3);
    }
}

fn scattered(n: u64) -> Vec<Centroid> {
    (0..n)
        .map(|i| Centroid::new((i * 7919) % 101, (i * 104729) % 37, (i * 31) % 53))
        .collect()
}

#[test]
fn no_primitives_no_layout() {
    assert!(build_layout(&Vec::new()).is_none());
}

#[test]
fn single_primitive_is_a_leaf() {
    let t = build_layout(&vec![Centroid::new(3, 4, 5)]).unwrap();
    assert!(matches!(t, BvhLayout::Leaf { item: 0 }));
}

#[test]
fn two_primitives_are_ordered_by_centroid() {
    let cs = vec![Centroid::new(9, 0, 0), Centroid::new(2, 0, 0)];
    match build_layout(&cs).unwrap() {
        BvhLayout::Node { axis, left, right } => {
            assert_eq!(axis, 0);
            assert!(matches!(*left, BvhLayout::Leaf { item: 1 }));
            assert!(matches!(*right, BvhLayout::Leaf { item: 0 }));
        }
        other => panic!("expected a node, got {:?}", other),
    }
}

#[test]
fn equal_keys_keep_their_order() {
    let cs = vec![Centroid::new(4, 0, 0), Centroid::new(4, 1, 1)];
    match build_layout(&cs).unwrap() {
        BvhLayout::Node { left, right, .. } => {
            assert!(matches!(*left, BvhLayout::Leaf { item: 0 }));
            assert!(matches!(*right, BvhLayout::Leaf { item: 1 }));
        }
        other => panic!("expected a node, got {:?}", other),
    }
}

#[test]
fn layout_holds_each_primitive_once() {
    for n in 1..40u64 {
        let cs = scattered(n);
        let t = build_layout(&cs).unwrap();
        let mut got = Vec::new();
        leaves(&t, &mut got);
        got.sort();
        assert_eq!(got, (0..n as usize).collect::<Vec<_>>());
    }
}

#[test]
fn layout_splits_at_median_along_cycling_axes() {
    let cs = scattered(57);
    let t = build_layout(&cs).unwrap();
    check(&t, &cs, 0);
}

#[test]
fn layout_is_logarithmically_deep() {
    for (n, h) in [(1u64, 0usize), (2, 1), (3, 2), (4, 2), (5, 3), (8, 3), (9, 4), (484, 9)] {
        let t = build_layout(&scattered(n)).unwrap();
        assert_eq!(height(&t), h);
    }
}

#[test]
fn spheres_along_a_ray_are_all_reachable() {
    // Five disjoint spheres strung along the x axis, given out of order.
    let xs = [40u64, 10, 30, 0, 20];
    let cs: Vec<Centroid> = xs.iter().map(|&x| Centroid::new(x, 5, 5)).collect();
    let t = build_layout(&cs).unwrap();
    let mut got = Vec::new();
    leaves(&t, &mut got);
    // The root splits along x, so its leaves run nearest to farthest.
    assert_eq!(got.iter().map(|&i| xs[i]).collect::<Vec<_>>(), vec![0, 10, 20, 30, 40]);
}
