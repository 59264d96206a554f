use pathtracer::{depth_exhausted, next_estimate, Estimate, Interaction, MAX_DEPTH};

const ALL: [Interaction; 4] = [
    Interaction::Miss,
    Interaction::Absorbed,
    Interaction::Specular,
    Interaction::Diffuse,
];

#[test]
fn zero_depth_gives_black_for_every_hit() {
    assert!(depth_exhausted(0));
    for i in ALL {
        assert_eq!(next_estimate(0, i), Estimate::Black);
    }
}

#[test]
fn negative_depth_gives_black() {
    assert!(depth_exhausted(-4));
    assert!(depth_exhausted(i64::MIN));
    for i in ALL {
        assert_eq!(next_estimate(-1, i), Estimate::Black);
    }
}

#[test]
fn positive_depth_follows_the_hit() {
    assert!(!depth_exhausted(1));
    assert_eq!(next_estimate(5, Interaction::Miss), Estimate::Background);
    assert_eq!(next_estimate(5, Interaction::Absorbed), Estimate::Emitted);
    assert_eq!(next_estimate(5, Interaction::Specular), Estimate::Attenuated { depth: 4 });
    assert_eq!(next_estimate(5, Interaction::Diffuse), Estimate::Weighted { depth: 4 });
    assert_eq!(next_estimate(1, Interaction::Diffuse), Estimate::Weighted { depth: 0 });
    assert_eq!(next_estimate(i64::MAX, Interaction::Specular), Estimate::Attenuated { depth: i64::MAX - 1 });
}

#[test]
fn path_of_mirrors_stops_at_the_budget() {
    let mut depth = MAX_DEPTH;
    let mut traced = 0;
    while !depth_exhausted(depth) {
        match next_estimate(depth, Interaction::Specular) {
            Estimate::Attenuated { depth: d } => {
                depth = d;
                traced += 1;
            }
            other => panic!("unexpected {:?}", other),
        }
    }
    assert_eq!(traced, 32);
    assert_eq!(next_estimate(depth, Interaction::Diffuse), Estimate::Black);
}
