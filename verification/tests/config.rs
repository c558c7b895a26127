use tauri_plugin_corner_snap::geometry::{Area, PhysicalPosition, PhysicalSize, CORNERS};
use tauri_plugin_corner_snap::record::WindowRecord;
use tauri_plugin_corner_snap::shape::{stretch, Shape, Stretch};
use tauri_plugin_corner_snap::{
    Anchor, Manage, Orientation, Placement, Problem, Rules, StateRules, Watcher, WindowOverride,
};

/// A 1920x1040 work area, offset so nothing can pass by assuming the origin.
fn area() -> Area {
    Area {
        position: PhysicalPosition::new(100, 200),
        size: PhysicalSize::new(1920, 1040),
    }
}

fn state(name: &str) -> StateRules {
    StateRules {
        name: name.to_string(),
        anchor: None,
        snap_to: None,
        turns: false,
        stretches: false,
    }
}

fn shape(size: (u32, u32), vertical: Option<(u32, u32)>, stretch: Stretch) -> Shape {
    Shape {
        size: PhysicalSize::new(size.0, size.1),
        vertical_size: vertical.map(|(w, h)| PhysicalSize::new(w, h)),
        stretch,
    }
}

/// A config written before edge slots existed has to keep behaving exactly as
/// it did, which means corners and nothing else.
#[test]
fn snapping_defaults_to_the_four_corners() {
    assert_eq!(Rules::default().snap_to, CORNERS.to_vec());
    assert_eq!(Rules::default().slots_for(None), CORNERS);
}

#[test]
fn a_state_can_narrow_the_slots_the_config_offers() {
    let mut badge = state("badge");
    badge.snap_to = Some(vec![Anchor::Left, Anchor::Right]);
    let config = Rules {
        snap_to: vec![Anchor::TopLeft, Anchor::TopRight],
        states: vec![state("panel"), badge],
        ..Rules::default()
    };

    assert_eq!(
        config.slots_for(Some(&config.states[0])),
        [Anchor::TopLeft, Anchor::TopRight]
    );
    assert_eq!(
        config.slots_for(Some(&config.states[1])),
        [Anchor::Left, Anchor::Right]
    );
}

/// Reads as "free placement", but is far more likely a mistake.
#[test]
fn an_empty_slot_list_falls_back_to_the_corners() {
    let config = Rules {
        snap_to: vec![],
        ..Rules::default()
    };
    assert_eq!(config.slots_for(None), CORNERS);
}

#[test]
fn a_state_without_a_vertical_size_keeps_its_shape_on_a_side() {
    let state = shape((260, 90), None, Stretch::Keep);

    assert_eq!(state.size_in(Anchor::Right), PhysicalSize::new(260, 90));
    assert_eq!(
        state.physical_size(Anchor::Right, &area(), 16),
        PhysicalSize::new(260, 90)
    );
}

/// The case the feature exists for: wide in a corner, tall on a side.
#[test]
fn a_vertical_size_is_used_only_where_the_window_runs_vertically() {
    let state = shape((260, 90), Some((90, 320)), Stretch::Keep);

    assert_eq!(state.size_in(Anchor::Left), PhysicalSize::new(90, 320));
    assert_eq!(state.size_in(Anchor::Right), PhysicalSize::new(90, 320));
    assert_eq!(state.size_in(Anchor::TopRight), PhysicalSize::new(260, 90));
    assert_eq!(state.size_in(Anchor::Top), PhysicalSize::new(260, 90));
    assert_eq!(state.size_in(Anchor::Center), PhysicalSize::new(260, 90));
}

#[test]
fn filling_a_side_stretches_the_axis_along_that_edge() {
    let state = shape((260, 90), Some((90, 320)), Stretch::Full);

    // Docked left or right: the height stretches, the width is the thickness.
    let bar = state.physical_size(Anchor::Right, &area(), 16);
    assert_eq!(bar, PhysicalSize::new(90, 1040 - 32));

    // Docked top: the *width* stretches instead, and the horizontal size is
    // the one in use, so the height is 90 rather than the vertical 320.
    let strip = state.physical_size(Anchor::Top, &area(), 16);
    assert_eq!(strip, PhysicalSize::new(1920 - 32, 90));
}

/// A corner touches two edges, so there is no single axis to stretch along.
#[test]
fn filling_does_nothing_in_a_corner_or_the_centre() {
    let state = shape((260, 90), None, Stretch::Full);

    assert_eq!(
        state.physical_size(Anchor::BottomRight, &area(), 16),
        PhysicalSize::new(260, 90)
    );
    assert_eq!(
        state.physical_size(Anchor::Center, &area(), 16),
        PhysicalSize::new(260, 90)
    );
}

/// `fill: 0.5` on this area wants 960 pixels across and 520 down.
#[test]
fn a_fraction_stretches_part_of_the_edge() {
    let state = shape(
        (260, 90),
        Some((90, 320)),
        Stretch::Part {
            width: 960,
            height: 520,
        },
    );

    assert_eq!(
        state.physical_size(Anchor::Right, &area(), 16),
        PhysicalSize::new(90, 520)
    );
}

/// A margin wider than the screen would otherwise ask for a window of zero or
/// negative height. (`fill: 1.0` wants all 1040 pixels; `0.0` wants none.)
#[test]
fn a_stretch_never_comes_out_at_zero() {
    assert_eq!(stretch(1040, 1040, 9999), 1);
    assert_eq!(stretch(1040, 0, 0), 1);
}

#[test]
fn a_stretch_is_capped_a_margin_short_of_each_end() {
    assert_eq!(stretch(1040, 1040, 16), 1008);
    assert_eq!(stretch(1040, 1030, 16), 1008);
    assert_eq!(stretch(1040, 520, 16), 520);
    assert_eq!(stretch(1040, 1040, 0), 1040);
}

#[test]
fn manage_all_covers_every_label() {
    assert!(Manage::All.covers("anything"));
}

#[test]
fn manage_labels_covers_only_those_labels() {
    let manage = Manage::Labels(vec!["main".to_string(), "hud".to_string()]);
    assert!(manage.covers("hud"));
    assert!(manage.covers("main"));
    assert!(!manage.covers("other"));
    assert!(!manage.covers("mai"));
}

#[test]
fn state_names_are_listed_for_error_messages() {
    let config = Rules {
        states: vec![state("wide"), state("badge")],
        ..Rules::default()
    };
    assert_eq!(config.state_names(), "badge, wide");
    assert_eq!(Rules::default().state_names(), "none configured");
}

#[test]
fn state_names_sort_by_character() {
    let config = Rules {
        states: vec![state("b"), state("ab"), state("a"), state("B")],
        ..Rules::default()
    };
    assert_eq!(config.state_names(), "B, a, ab, b");
}

#[test]
fn a_state_is_found_by_its_exact_name() {
    let config = Rules {
        states: vec![state("wide"), state("badge")],
        ..Rules::default()
    };
    assert_eq!(config.find_state("badge").map(|s| s.name.clone()), Some("badge".to_string()));
    assert!(config.find_state("Badge").is_none());
    assert!(config.knows_state("wide"));
    assert!(!config.knows_state("narrow"));
}

/// `main` opens bottom-left, `kaggriculture` bottom-right, both in
/// `expanded`: a key an override does not name falls back to the config's.
#[test]
fn an_override_changes_only_what_it_names() {
    let config = Rules {
        states: vec![state("expanded"), state("collapsed")],
        initial_state: Some("expanded".to_string()),
        initial_anchor: Some(Anchor::BottomLeft),
        manage: Manage::Labels(vec!["main".to_string(), "kaggriculture".to_string()]),
        windows: vec![WindowOverride {
            label: "kaggriculture".to_string(),
            initial_state: None,
            initial_anchor: Some(Anchor::BottomRight),
        }],
        ..Rules::default()
    };

    assert_eq!(
        config.initial_for("main"),
        (Some("expanded".to_string()), Some(Anchor::BottomLeft))
    );
    assert_eq!(
        config.initial_for("kaggriculture"),
        (Some("expanded".to_string()), Some(Anchor::BottomRight))
    );
}

#[test]
fn a_sound_config_has_no_problems() {
    let mut turning = state("expanded");
    turning.turns = true;
    turning.stretches = true;
    let config = Rules {
        snap_to: vec![Anchor::TopLeft, Anchor::Right],
        states: vec![turning],
        initial_state: Some("expanded".to_string()),
        ..Rules::default()
    };
    assert!(config.problems().is_empty());
}

#[test]
fn every_problem_is_reported_in_order() {
    let mut turning = state("expanded");
    turning.turns = true;
    turning.stretches = true;
    let mut empty = state("badge");
    empty.snap_to = Some(vec![]);
    let config = Rules {
        snap_to: vec![],
        states: vec![turning, empty],
        initial_state: Some("expandd".to_string()),
        manage: Manage::Labels(vec!["main".to_string()]),
        windows: vec![WindowOverride {
            label: "hud".to_string(),
            initial_state: Some("wide".to_string()),
            initial_anchor: None,
        }],
        ..Rules::default()
    };
    let problems: Vec<String> = config.problems().iter().map(|p| format!("{:?}", p)).collect();
    assert_eq!(
        problems,
        vec![
            "UnknownInitialState(\"expandd\")".to_string(),
            "OverrideNotManaged(\"hud\")".to_string(),
            "UnknownOverrideState { label: \"hud\", state: \"wide\" }".to_string(),
            "EmptySnapTo".to_string(),
            "NeverTurns(\"expanded\")".to_string(),
            "NeverStretches(\"expanded\")".to_string(),
            "EmptyStateSnapTo(\"badge\")".to_string(),
        ]
    );
    assert!(matches!(Rules::default().problems()[..], [Problem::NoStates]));
}

#[test]
fn a_window_record_remembers_its_state_and_placement() {
    let mut record = WindowRecord::default();
    assert_eq!(record.state(), None);
    record.set_state("expanded");
    assert_eq!(record.state(), Some("expanded".to_string()));
    let p = Placement {
        anchor: Anchor::Right,
        orientation: Orientation::Vertical,
    };
    assert!(record.note(p));
    assert!(!record.note(p));
    assert_eq!(record.reporter().last(), Some(p));
    assert_eq!(record.state(), Some("expanded".to_string()));
}

#[test]
fn a_watcher_hands_out_senders_onto_its_move_channel() {
    let (moves, received) = std::sync::mpsc::channel::<()>();
    let (stop, _stopped) = std::sync::mpsc::channel::<()>();
    let watcher = Watcher::new(moves, stop);
    let sender = watcher.sender();
    sender.send(()).expect("the channel is open");
    assert!(received.try_recv().is_ok());
    drop(sender);
    drop(watcher);
    assert!(received.recv().is_err());
}

#[test]
fn an_unknown_state_is_refused_with_the_names_that_exist() {
    let config = Rules {
        states: vec![state("wide"), state("badge")],
        ..Rules::default()
    };
    assert_eq!(config.check_state("wide"), Ok(()));
    assert_eq!(
        config.check_state("narrow"),
        Err("unknown window state 'narrow'; configured states: badge, wide".to_string())
    );
    assert_eq!(
        Rules::default().check_state("expanded"),
        Err("unknown window state 'expanded'; configured states: none configured".to_string())
    );
}

/// Measured rather than remembered, falling back to the last placement when
/// there is nothing to measure; a measured answer is recorded, so the next
/// real change is still announced but a repeat of the answer is not.
#[test]
fn asking_where_the_window_is_falls_back_to_the_last_placement() {
    let mut record = WindowRecord::new();
    assert_eq!(record.answer(None), None);
    let p = Placement {
        anchor: Anchor::TopLeft,
        orientation: Orientation::Horizontal,
    };
    assert_eq!(record.answer(Some(p)), Some(p));
    assert!(!record.note(p));
    assert_eq!(record.answer(None), Some(p));
}

/// `verticalSize: [90, 320]` with `fill: true` uses the 90 and ignores the 320.
#[test]
fn filling_ignores_the_declared_length() {
    let short = shape((260, 90), Some((90, 320)), Stretch::Full);
    let long = shape((260, 90), Some((90, 700)), Stretch::Full);
    assert_eq!(
        short.physical_size(Anchor::Left, &area(), 16),
        long.physical_size(Anchor::Left, &area(), 16)
    );
}

#[test]
fn repeated_names_are_noticed() {
    assert!(Rules::default().has_distinct_keys());
    let twice = Rules {
        states: vec![state("wide"), state("badge"), state("wide")],
        ..Rules::default()
    };
    assert!(!twice.has_distinct_keys());
    let overrides = Rules {
        windows: vec![
            WindowOverride {
                label: "main".to_string(),
                initial_state: None,
                initial_anchor: None,
            },
            WindowOverride {
                label: "main".to_string(),
                initial_state: None,
                initial_anchor: Some(Anchor::Top),
            },
        ],
        ..Rules::default()
    };
    assert!(!overrides.has_distinct_keys());
}

#[test]
fn timing_defaults_are_a_quarter_second_and_ten_seconds() {
    let rules = Rules::default();
    assert_eq!(rules.snap_delay_ms, 250);
    assert_eq!(rules.placement_check_ms, 10_000);
}

#[test]
fn inserting_a_state_twice_keeps_the_last_and_the_names_distinct() {
    let mut rules = Rules {
        states: vec![],
        ..Rules::default()
    };
    rules.insert_state(state("wide"));
    rules.insert_state(state("badge"));
    let mut turning = state("wide");
    turning.turns = true;
    rules.insert_state(turning);
    assert!(rules.has_distinct_keys());
    assert_eq!(rules.states.len(), 2);
    assert!(rules.find_state("wide").unwrap().turns);
    assert!(rules.knows_state("badge"));
    assert!(!rules.knows_state("narrow"));
}

#[test]
fn inserting_an_override_twice_keeps_the_last_and_the_labels_distinct() {
    let mut rules = Rules::default();
    rules.insert_override(WindowOverride {
        label: "main".to_string(),
        initial_state: None,
        initial_anchor: Some(Anchor::Top),
    });
    rules.insert_override(WindowOverride {
        label: "hud".to_string(),
        initial_state: None,
        initial_anchor: None,
    });
    rules.insert_override(WindowOverride {
        label: "main".to_string(),
        initial_state: None,
        initial_anchor: Some(Anchor::BottomRight),
    });
    assert!(rules.has_distinct_keys());
    assert_eq!(rules.windows.len(), 2);
    assert_eq!(rules.initial_for("main").1, Some(Anchor::BottomRight));
    assert_eq!(rules.initial_for("hud").1, None);
}
