use tauri_plugin_corner_snap::geometry::{
    nearest, Area, MoveStep, PhysicalPosition, PhysicalSize, Rect, Slot, CORNERS,
};
use tauri_plugin_corner_snap::placement::{
    candidate_slots, measure_at, plan_reposition, slot_at, Action,
};
use tauri_plugin_corner_snap::shape::{Shape, Stretch};
use tauri_plugin_corner_snap::{Anchor, Orientation, Placement, Rules, StateRules};

/// A 1920x1040 work area, offset so nothing can pass by assuming the origin.
fn area() -> Area {
    Area {
        position: PhysicalPosition::new(100, 200),
        size: PhysicalSize::new(1920, 1040),
    }
}

fn state(name: &str, turns: bool, stretches: bool) -> StateRules {
    StateRules {
        name: name.to_string(),
        anchor: None,
        snap_to: None,
        turns,
        stretches,
    }
}

/// A config and the shapes of its states on a 100% display.
struct Setup {
    rules: Rules,
    shapes: Vec<(String, Shape)>,
}

impl Setup {
    fn shape(&self, name: &str) -> Option<Shape> {
        self.shapes
            .iter()
            .find(|(n, _)| n == name)
            .map(|(_, s)| *s)
    }
}

/// Picks the slot a window of `size` dropped at `centre` would snap into.
fn snap(setup: &Setup, state: Option<&str>, size: PhysicalSize, centre: (i32, i32)) -> Slot {
    let rules = &setup.rules;
    let state_rules = state.and_then(|name| rules.find_state(name));
    let shape = state.and_then(|name| setup.shape(name));
    let candidates = candidate_slots(rules, state_rules, shape.as_ref(), &area(), size);

    nearest(PhysicalPosition::new(centre.0, centre.1), &candidates).expect("a slot")
}

fn panel_shape(stretch: Stretch) -> Shape {
    Shape {
        size: PhysicalSize::new(260, 90),
        vertical_size: Some(PhysicalSize::new(90, 320)),
        stretch,
    }
}

fn badge_shape() -> Shape {
    Shape {
        size: PhysicalSize::new(44, 44),
        vertical_size: None,
        stretch: Stretch::Keep,
    }
}

fn rotating() -> Setup {
    Setup {
        rules: Rules {
            snap_to: vec![
                Anchor::TopLeft,
                Anchor::TopRight,
                Anchor::BottomLeft,
                Anchor::BottomRight,
                Anchor::Left,
                Anchor::Right,
            ],
            states: vec![state("expanded", true, true), state("collapsed", false, false)],
            edge_margin: 16,
            ..Rules::default()
        },
        shapes: vec![
            ("expanded".to_string(), panel_shape(Stretch::Full)),
            ("collapsed".to_string(), badge_shape()),
        ],
    }
}

/// The whole feature, end to end but for the window.
#[test]
fn a_panel_dropped_on_a_side_turns_and_stretches() {
    let setup = rotating();
    let panel = PhysicalSize::new(260, 90);

    let side = snap(&setup, Some("expanded"), panel, (1980, 720));
    assert_eq!(side.anchor, Anchor::Right);
    assert_eq!(side.rect.size, PhysicalSize::new(90, 1040 - 32));
    assert_eq!(
        side.rect.position,
        PhysicalPosition::new(100 + 1920 - 90 - 16, 200 + 16)
    );

    let corner = snap(&setup, Some("expanded"), panel, (1980, 240));
    assert_eq!(corner.anchor, Anchor::TopRight);
    assert_eq!(corner.rect.size, panel);
}

/// Turning has to work in reverse too.
#[test]
fn a_bar_dragged_off_a_side_turns_back() {
    let setup = rotating();
    let bar = PhysicalSize::new(90, 1008);

    let corner = snap(&setup, Some("expanded"), bar, (140, 240));
    assert_eq!(corner.anchor, Anchor::TopLeft);
    assert_eq!(corner.rect.size, PhysicalSize::new(260, 90));
}

#[test]
fn a_state_that_does_not_turn_keeps_its_size_on_a_side() {
    let setup = rotating();
    let badge = PhysicalSize::new(44, 44);

    let side = snap(&setup, Some("collapsed"), badge, (1980, 720));
    assert_eq!(side.anchor, Anchor::Right);
    assert_eq!(side.rect.size, badge);
}

#[test]
fn corners_are_the_only_slots_unless_the_config_says_otherwise() {
    let setup = Setup {
        rules: Rules {
            states: vec![state("expanded", false, false)],
            ..Rules::default()
        },
        shapes: vec![(
            "expanded".to_string(),
            Shape {
                size: PhysicalSize::new(260, 90),
                vertical_size: None,
                stretch: Stretch::Keep,
            },
        )],
    };
    let panel = PhysicalSize::new(260, 90);

    let found = snap(&setup, Some("expanded"), panel, (1980, 720));
    assert!(CORNERS.contains(&found.anchor), "{:?}", found.anchor);
}

#[test]
fn an_untracked_window_is_moved_but_not_resized() {
    let setup = rotating();
    let odd = PhysicalSize::new(300, 120);

    let found = snap(&setup, None, odd, (1980, 720));
    assert_eq!(found.rect.size, odd);
}

#[test]
fn an_explicit_anchor_is_honoured_outside_the_snap_list() {
    let rules = Rules {
        snap_to: vec![Anchor::BottomRight],
        states: vec![state("expanded", true, false)],
        edge_margin: 16,
        ..Rules::default()
    };
    let shape = panel_shape(Stretch::Keep);

    let slot = slot_at(
        Anchor::Left,
        rules.edge_margin,
        Some(&shape),
        &area(),
        PhysicalSize::new(260, 90),
    );

    assert_eq!(slot.anchor, Anchor::Left);
    assert_eq!(slot.rect.size, PhysicalSize::new(90, 320));
}

#[test]
fn orientation_follows_the_shape_the_slot_gives_the_window() {
    let setup = rotating();
    let panel = PhysicalSize::new(260, 90);

    let side = snap(&setup, Some("expanded"), panel, (1980, 720));
    assert_eq!(Orientation::of(side.rect.size), Orientation::Vertical);

    let corner = snap(&setup, Some("expanded"), panel, (1980, 240));
    assert_eq!(Orientation::of(corner.rect.size), Orientation::Horizontal);

    let badge = snap(
        &setup,
        Some("collapsed"),
        PhysicalSize::new(44, 44),
        (1980, 720),
    );
    assert_eq!(Orientation::of(badge.rect.size), Orientation::Horizontal);
}

#[test]
fn a_zero_margin_stretch_runs_edge_to_edge() {
    let setup = Setup {
        rules: Rules {
            snap_to: vec![Anchor::Left, Anchor::Right],
            states: vec![state("bar", true, true)],
            edge_margin: 0,
            ..Rules::default()
        },
        shapes: vec![("bar".to_string(), panel_shape(Stretch::Full))],
    };

    let slot = snap(
        &setup,
        Some("bar"),
        PhysicalSize::new(260, 90),
        (1980, 720),
    );
    assert_eq!(slot.rect.size.height, 1040);
    assert_eq!(slot.rect.position.y, 200);
    assert_eq!(slot.rect.position.x, 100 + 1920 - 90);
}

fn rect(x: i32, y: i32, w: u32, h: u32) -> Rect {
    Rect::new(PhysicalPosition::new(x, y), PhysicalSize::new(w, h))
}

/// A window that cannot be moved is tried once, then left alone until
/// something changes; one found where it belongs forgets the attempt.
#[test]
fn a_window_that_will_not_move_is_not_chased() {
    let setup = rotating();
    let rules = &setup.rules;
    let expanded = rules.find_state("expanded");
    let shape = setup.shape("expanded");
    // Dropped against the right edge, still the shape of a panel.
    let current = rect(1700, 675, 260, 90);
    let mut last = None;

    let first = plan_reposition(rules, expanded, shape.as_ref(), &area(), current, None, &mut last)
        .expect("fits");
    let target = rect(1914, 216, 90, 1008);
    assert_eq!(first.slot.rect, target);
    assert_eq!(
        first.placement,
        Placement {
            anchor: Anchor::Right,
            orientation: Orientation::Vertical
        }
    );
    match &first.action {
        Action::Move(steps) => assert_eq!(
            steps,
            &vec![
                MoveStep::Resize(PhysicalSize::new(90, 90)),
                MoveStep::Reposition(PhysicalPosition::new(1914, 216)),
                MoveStep::Resize(PhysicalSize::new(90, 1008)),
            ]
        ),
        other => panic!("expected a move, got {:?}", other),
    }
    assert_eq!(last, Some((current, target)));

    // The window did not budge: the same change again is not attempted.
    let second = plan_reposition(rules, expanded, shape.as_ref(), &area(), current, None, &mut last)
        .expect("fits");
    assert!(matches!(second.action, Action::Stuck));
    assert_eq!(last, Some((current, target)));

    // Once it is where it belongs, it is left alone and the attempt forgotten.
    let third = plan_reposition(rules, expanded, shape.as_ref(), &area(), target, None, &mut last)
        .expect("fits");
    assert!(matches!(third.action, Action::Parked));
    assert_eq!(last, None);
}

#[test]
fn an_override_wins_over_the_state_anchor_which_wins_over_the_nearest() {
    let mut setup = rotating();
    setup.rules.states[1].anchor = Some(Anchor::BottomLeft);
    let rules = &setup.rules;
    let collapsed = rules.find_state("collapsed");
    let shape = setup.shape("collapsed");
    let current = rect(1900, 220, 44, 44);

    let by_state = plan_reposition(rules, collapsed, shape.as_ref(), &area(), current, None, &mut None)
        .expect("fits");
    assert_eq!(by_state.slot.anchor, Anchor::BottomLeft);
    assert_eq!(by_state.slot.rect, rect(116, 1180, 44, 44));

    let by_override = plan_reposition(
        rules,
        collapsed,
        shape.as_ref(),
        &area(),
        current,
        Some(Anchor::Top),
        &mut None,
    )
    .expect("fits");
    assert_eq!(by_override.slot.anchor, Anchor::Top);
    assert_eq!(by_override.slot.rect, rect(100 + (1920 - 44) / 2, 216, 44, 44));
}

#[test]
fn an_arithmetic_overflow_is_reported_rather_than_computed() {
    let setup = rotating();
    let huge = Area {
        position: PhysicalPosition::new(i32::MAX - 10, 0),
        size: PhysicalSize::new(1920, 1040),
    };
    let current = rect(0, 0, 260, 90);
    let mut last = None;
    assert!(plan_reposition(&setup.rules, None, None, &huge, current, None, &mut last).is_none());
    assert_eq!(last, None);
    assert!(measure_at(&setup.rules, None, None, &huge, current).is_none());
}

/// Measuring reports how the window *is*: a panel mid-drag near the right
/// edge is nearest the right slot but has not turned yet.
#[test]
fn measuring_reports_the_shape_the_window_has() {
    let setup = rotating();
    let expanded = setup.rules.find_state("expanded");
    let shape = setup.shape("expanded");
    let found = measure_at(&setup.rules, expanded, shape.as_ref(), &area(), rect(1850, 675, 260, 90))
        .expect("fits");
    assert_eq!(found.anchor, Anchor::Right);
    assert_eq!(found.orientation, Orientation::Horizontal);
}
