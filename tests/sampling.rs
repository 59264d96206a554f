use pathtracer::{choose_light_child, choose_mixture_component, CosinePdf};

#[test]
fn cosine_pdf_constructs() {
    assert_eq!(CosinePdf::new(), CosinePdf {});
}

#[test]
fn light_child_is_in_range_and_varies() {
    let mut seen = [false; 5];
    for _ in 0..2000 {
        let i = choose_light_child(5);
        assert!(i < 5);
        seen[i] = true;
    }
    assert!(seen.iter().all(|s| *s));
}

#[test]
fn single_light_child_is_always_chosen() {
    for _ in 0..100 {
        assert_eq!(choose_light_child(1), 0);
    }
}

#[test]
fn mixture_component_uses_both_sides() {
    let mut counts = [0usize; 2];
    for _ in 0..4000 {
        counts[choose_mixture_component()] += 1;
    }
    assert!(counts[0] > 1000 && counts[1] > 1000);
}
