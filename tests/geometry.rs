use pathtracer::RectAxisType;

#[test]
fn plane_axes_of_each_orientation() {
    assert_eq!(RectAxisType::XY.plane_axes(), (0, 1, 2));
    assert_eq!(RectAxisType::XZ.plane_axes(), (0, 2, 1));
    assert_eq!(RectAxisType::YZ.plane_axes(), (1, 2, 0));
}

#[test]
fn plane_axes_are_a_permutation() {
    for a in [RectAxisType::XY, RectAxisType::XZ, RectAxisType::YZ] {
        let (p, q, n) = a.plane_axes();
        let mut seen = [false; 3];
        seen[p] = true;
        seen[q] = true;
        seen[n] = true;
        assert!(seen.iter().all(|s| *s));
    }
}
