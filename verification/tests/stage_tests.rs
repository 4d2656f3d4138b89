use rhyolite::stage::RenderStage;

fn all_stages() -> Vec<RenderStage> {
    vec![
        RenderStage::Stopped,
        RenderStage::Albedo,
        RenderStage::Ambient,
        RenderStage::Point,
        RenderStage::Unlit,
    ]
}

#[test]
fn stage_transition_matrix() {
    // For each target stage, exactly the documented sources are allowed.
    let allowed: Vec<(RenderStage, Vec<RenderStage>)> = vec![
        (
            RenderStage::Stopped,
            vec![RenderStage::Ambient, RenderStage::Point, RenderStage::Unlit],
        ),
        (
            RenderStage::Albedo,
            vec![RenderStage::Stopped, RenderStage::Albedo],
        ),
        (RenderStage::Ambient, vec![RenderStage::Albedo]),
        (
            RenderStage::Point,
            vec![RenderStage::Ambient, RenderStage::Point],
        ),
        (
            RenderStage::Unlit,
            vec![RenderStage::Ambient, RenderStage::Point, RenderStage::Unlit],
        ),
    ];
    for (target, sources) in allowed {
        for cur in all_stages() {
            let expected = sources.contains(&cur);
            assert_eq!(cur.can_enter(target), expected, "{:?} -> {:?}", cur, target);
        }
    }
}

#[test]
fn stage_full_frame_in_order() {
    let mut stage = RenderStage::Stopped;
    for target in [
        RenderStage::Albedo,
        RenderStage::Albedo,
        RenderStage::Ambient,
        RenderStage::Point,
        RenderStage::Point,
        RenderStage::Unlit,
        RenderStage::Stopped,
    ] {
        assert!(stage.can_enter(target));
        stage.update(target);
        assert_eq!(stage, target);
    }
}

#[test]
fn stage_point_lights_are_optional() {
    let mut stage = RenderStage::Stopped;
    stage.update(RenderStage::Albedo);
    stage.update(RenderStage::Ambient);
    assert!(stage.can_enter(RenderStage::Unlit));
    assert!(stage.can_enter(RenderStage::Stopped));
}

#[test]
fn stage_cannot_skip_geometry_or_lighting() {
    let stopped = RenderStage::Stopped;
    assert!(!stopped.can_enter(RenderStage::Ambient));
    assert!(!stopped.can_enter(RenderStage::Point));
    assert!(!stopped.can_enter(RenderStage::Unlit));
    assert!(!stopped.can_enter(RenderStage::Stopped));
    let albedo = RenderStage::Albedo;
    assert!(!albedo.can_enter(RenderStage::Point));
    assert!(!albedo.can_enter(RenderStage::Stopped));
    let unlit = RenderStage::Unlit;
    assert!(!unlit.can_enter(RenderStage::Point));
}
