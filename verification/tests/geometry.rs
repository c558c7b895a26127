use tauri_plugin_corner_snap::geometry::{
    anchor_position, move_steps, nearest, Area, MoveStep, PhysicalPosition, PhysicalSize, Rect,
    Slot, CORNERS,
};
use tauri_plugin_corner_snap::geometry::{all_anchors, corners, place_axis, Align};
use tauri_plugin_corner_snap::{Anchor, ALL_ANCHORS};

/// A 1920x1080 screen with a 40px taskbar along the bottom, offset so that a
/// test cannot pass by treating the work area as starting at the origin.
fn area() -> Area {
    Area {
        position: PhysicalPosition::new(100, 200),
        size: PhysicalSize::new(1920, 1040),
    }
}

fn slot(anchor: Anchor, size: PhysicalSize, margin: i32) -> Slot {
    Slot {
        anchor,
        rect: Rect {
            position: anchor_position(&area(), size, anchor, margin),
            size,
        },
    }
}

#[test]
fn corners_sit_a_margin_in_from_both_edges() {
    let size = PhysicalSize::new(260, 90);

    assert_eq!(
        anchor_position(&area(), size, Anchor::TopLeft, 16),
        PhysicalPosition::new(116, 216)
    );
    assert_eq!(
        anchor_position(&area(), size, Anchor::BottomRight, 16),
        // 100 + 1920 - 260 - 16, 200 + 1040 - 90 - 16
        PhysicalPosition::new(1744, 1134)
    );
}

#[test]
fn an_edge_slot_is_centred_along_that_edge() {
    let size = PhysicalSize::new(90, 320);
    let position = anchor_position(&area(), size, Anchor::Right, 16);

    // Held against the right edge by the margin, centred vertically.
    assert_eq!(position.x, 100 + 1920 - 90 - 16);
    assert_eq!(position.y, 200 + (1040 - 320) / 2);
}

/// The margin is a gap from an edge the window is held against. A centred
/// axis has no such edge, so applying it there would shift the window off
/// centre for no reason.
#[test]
fn the_margin_does_not_apply_to_a_centred_axis() {
    let size = PhysicalSize::new(90, 320);

    assert_eq!(
        anchor_position(&area(), size, Anchor::Right, 0).y,
        anchor_position(&area(), size, Anchor::Right, 64).y
    );
}

#[test]
fn the_centre_slot_is_centred_on_both_axes() {
    let size = PhysicalSize::new(260, 90);
    let position = anchor_position(&area(), size, Anchor::Center, 16);

    assert_eq!(position.x, 100 + (1920 - 260) / 2);
    assert_eq!(position.y, 200 + (1040 - 90) / 2);
}

/// A window stretched to the full length of an edge ends up a margin in from
/// *both* ends of it.
#[test]
fn a_fully_stretched_window_clears_both_ends_by_the_margin() {
    let size = PhysicalSize::new(90, 1040 - 2 * 16);
    let position = anchor_position(&area(), size, Anchor::Right, 16);

    assert_eq!(position.y, 200 + 16);
    assert_eq!(position.y + size.height as i32, 200 + 1040 - 16);
}

#[test]
fn a_window_dropped_in_a_corner_picks_that_corner() {
    let panel = PhysicalSize::new(260, 90);
    let slots: Vec<Slot> = CORNERS
        .iter()
        .map(|&anchor| slot(anchor, panel, 16))
        .collect();

    let found = nearest(PhysicalPosition::new(180, 260), &slots).expect("a slot");
    assert_eq!(found.anchor, Anchor::TopLeft);
}

/// The case the whole feature exists for: a wide panel that becomes a tall
/// bar on the side.
#[test]
fn a_rotating_widget_prefers_the_side_only_away_from_the_corners() {
    let panel = PhysicalSize::new(260, 90);
    let bar = PhysicalSize::new(90, 1040 - 32);
    let mut slots: Vec<Slot> = CORNERS
        .iter()
        .map(|&anchor| slot(anchor, panel, 16))
        .collect();
    slots.push(slot(Anchor::Right, bar, 16));

    // Right edge, halfway down.
    let middle = nearest(PhysicalPosition::new(1980, 720), &slots).expect("a slot");
    assert_eq!(middle.anchor, Anchor::Right);
    assert_eq!(middle.rect.size, bar);

    // Right edge, hard against the top.
    let corner = nearest(PhysicalPosition::new(1980, 240), &slots).expect("a slot");
    assert_eq!(corner.anchor, Anchor::TopRight);
    assert_eq!(corner.rect.size, panel);
}

/// Slots the config does not allow are simply not candidates.
#[test]
fn only_the_slots_offered_can_be_chosen() {
    let panel = PhysicalSize::new(260, 90);
    let slots = [slot(Anchor::BottomLeft, panel, 16)];

    let found = nearest(PhysicalPosition::new(1980, 240), &slots).expect("a slot");
    assert_eq!(found.anchor, Anchor::BottomLeft);
}

#[test]
fn nothing_is_nearest_to_no_slots() {
    assert_eq!(nearest(PhysicalPosition::new(0, 0), &[]), None);
}

#[test]
fn a_rectangle_reports_its_own_centre() {
    let rect = Rect {
        position: PhysicalPosition::new(100, 200),
        size: PhysicalSize::new(260, 90),
    };

    assert_eq!(rect.centre(), PhysicalPosition::new(230, 245));
}

#[test]
fn ties_go_to_the_first_slot_offered() {
    let panel = PhysicalSize::new(260, 90);
    let left = slot(Anchor::TopLeft, panel, 16);
    let right = slot(Anchor::TopRight, panel, 16);
    // Exactly half way between the two centres.
    let a = left.rect.centre();
    let b = right.rect.centre();
    let between = PhysicalPosition::new((a.x + b.x) / 2, a.y);

    assert_eq!(nearest(between, &[left, right]).unwrap().anchor, Anchor::TopLeft);
    assert_eq!(nearest(between, &[right, left]).unwrap().anchor, Anchor::TopRight);
}

#[test]
fn a_centre_rounds_odd_lengths_down() {
    let rect = Rect::new(PhysicalPosition::new(-10, 0), PhysicalSize::new(5, 7));
    assert_eq!(rect.centre(), PhysicalPosition::new(-8, 3));
}

#[test]
fn a_window_larger_than_the_area_centres_over_it() {
    // (100 - 131) / 2 rounds towards zero, to -15.
    assert_eq!(place_axis(0, 100, 131, Align::Center, 16), -15);
    assert_eq!(place_axis(10, 100, 30, Align::Start, 16), 26);
    assert_eq!(place_axis(10, 100, 30, Align::End, 16), 64);
}

#[test]
fn every_slot_is_listed_once_in_reading_order() {
    assert_eq!(all_anchors(), ALL_ANCHORS.to_vec());
    assert_eq!(corners(), CORNERS.to_vec());
    for (i, anchor) in ALL_ANCHORS.iter().enumerate() {
        let (h, v) = anchor.aligns();
        let expect = |k: usize| match k {
            0 => Align::Start,
            1 => Align::Center,
            _ => Align::End,
        };
        assert_eq!(h, expect(i % 3));
        assert_eq!(v, expect(i / 3));
        // A side slot is centred on exactly one axis.
        assert_eq!(anchor.is_side(), (h == Align::Center) != (v == Align::Center));
        assert_eq!(anchor.runs_vertically(), anchor.is_side() && v == Align::Center);
    }
}

#[test]
fn a_pure_move_is_one_step() {
    let target = Rect::new(PhysicalPosition::new(500, 600), PhysicalSize::new(260, 90));
    assert_eq!(
        move_steps(PhysicalSize::new(260, 90), target),
        vec![MoveStep::Reposition(PhysicalPosition::new(500, 600))]
    );
}

/// Turning shrinks one axis and grows the other: shrink to the smaller of
/// the two on each axis, move, then grow.
#[test]
fn turning_shrinks_then_moves_then_grows() {
    let target = Rect::new(PhysicalPosition::new(1914, 216), PhysicalSize::new(90, 1008));
    assert_eq!(
        move_steps(PhysicalSize::new(260, 90), target),
        vec![
            MoveStep::Resize(PhysicalSize::new(90, 90)),
            MoveStep::Reposition(PhysicalPosition::new(1914, 216)),
            MoveStep::Resize(PhysicalSize::new(90, 1008)),
        ]
    );
    // Growing only: no shrink step.
    let grow = Rect::new(PhysicalPosition::new(0, 0), PhysicalSize::new(300, 100));
    assert_eq!(
        move_steps(PhysicalSize::new(260, 90), grow),
        vec![
            MoveStep::Reposition(PhysicalPosition::new(0, 0)),
            MoveStep::Resize(PhysicalSize::new(300, 100)),
        ]
    );
    // Shrinking only: no grow step.
    let shrink = Rect::new(PhysicalPosition::new(0, 0), PhysicalSize::new(44, 44));
    assert_eq!(
        move_steps(PhysicalSize::new(260, 90), shrink),
        vec![
            MoveStep::Resize(PhysicalSize::new(44, 44)),
            MoveStep::Reposition(PhysicalPosition::new(0, 0)),
        ]
    );
}

fn inside(r: Rect, a: &Area) -> bool {
    a.position.x <= r.position.x
        && a.position.y <= r.position.y
        && r.position.x as i64 + r.size.width as i64 <= a.position.x as i64 + a.size.width as i64
        && r.position.y as i64 + r.size.height as i64 <= a.position.y as i64 + a.size.height as i64
}

/// Turning a panel in the top-right corner into a full-height bar on the
/// right: every rectangle the window passes through is on the screen.
#[test]
fn every_step_of_a_turn_stays_on_screen() {
    let from = slot(Anchor::TopRight, PhysicalSize::new(260, 90), 16).rect;
    let to = slot(Anchor::Right, PhysicalSize::new(90, 1008), 16).rect;
    assert!(inside(from, &area()) && inside(to, &area()));

    let mut at = from;
    for step in move_steps(from.size, to) {
        at = match step {
            MoveStep::Resize(size) => Rect::new(at.position, size),
            MoveStep::Reposition(position) => Rect::new(position, at.size),
        };
        assert!(inside(at, &area()), "{:?}", at);
    }
    assert_eq!(at, to);
}

/// Dropped with its centre on any slot's centre, a window picks that slot.
#[test]
fn every_slot_is_winnable() {
    let panel = PhysicalSize::new(260, 90);
    let slots: Vec<Slot> = ALL_ANCHORS.iter().map(|&a| slot(a, panel, 16)).collect();
    for s in &slots {
        assert_eq!(nearest(s.rect.centre(), &slots).unwrap().anchor, s.anchor);
    }
}
