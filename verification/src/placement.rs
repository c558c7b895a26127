//! Deciding where a window belongs and what to do to get it there.
//!
//! One path for all of it -- the initial placement, `set_state`, `snap`, and
//! the periodic check -- differing only in how the slot is chosen: an explicit
//! anchor wins over the state's own, which wins over the nearest slot. The
//! caller measures the window and the monitor, and carries out the steps this
//! hands back.

use vstd::prelude::*;

use crate::config::{Rules, StateRules};
use crate::geometry::{
    anchor_fits, anchor_fits_exec, anchor_position, anchored_rect, centre_fits, centre_fits_exec,
    is_first_nearest, move_steps, nearest, nearest_fits, nearest_fits_exec, spec_centre,
    spec_move_steps, Anchor, Area, MoveStep, PhysicalSize, Rect, Slot,
};
use crate::report::{orientation_of, Orientation, Placement};
use crate::geometry::{half, place, signed, slot_key, Align};
use crate::shape::{Shape, Stretch};

verus! {

/// The shape behind an optional reference.
pub open spec fn opt_shape(shape: Option<&Shape>) -> Option<Shape> {
    match shape {
        Some(s) => Some(*s),
        None => None,
    }
}

/// The state behind an optional reference.
pub open spec fn opt_state(state: Option<&StateRules>) -> Option<StateRules> {
    match state {
        Some(s) => Some(*s),
        None => None,
    }
}

/// The size a window takes in `anchor`: its state's size there, or the size
/// it already has when there is no state to look one up in.
pub open spec fn size_for(
    anchor: Anchor,
    shape: Option<Shape>,
    area: Area,
    margin: i32,
    current: PhysicalSize,
) -> PhysicalSize {
    match shape {
        Some(s) => s.spec_physical_size(anchor, area, margin),
        None => current,
    }
}

/// The slot a window would land in at `anchor`.
pub open spec fn spec_slot_at(
    anchor: Anchor,
    shape: Option<Shape>,
    area: Area,
    margin: i32,
    current: PhysicalSize,
) -> Slot {
    Slot {
        anchor,
        rect: anchored_rect(area, size_for(anchor, shape, area, margin, current), anchor, margin),
    }
}

/// Working out [`spec_slot_at`] overflows nowhere.
pub open spec fn slot_fits(
    anchor: Anchor,
    shape: Option<Shape>,
    area: Area,
    margin: i32,
    current: PhysicalSize,
) -> bool {
    anchor_fits(area, size_for(anchor, shape, area, margin, current), anchor, margin)
}

/// The rectangle a window in `shape` would occupy at `anchor`.
///
/// `current` is the size to use when there is no state: with nothing to look
/// a size up in, the window keeps the one it has and only moves.
pub fn slot_at(
    anchor: Anchor,
    edge_margin: i32,
    shape: Option<&Shape>,
    area: &Area,
    current: PhysicalSize,
) -> (slot: Slot)
    requires
        slot_fits(anchor, opt_shape(shape), *area, edge_margin, current),
    ensures
        slot == spec_slot_at(anchor, opt_shape(shape), *area, edge_margin, current),
{
    let size = match shape {
        Some(s) => s.physical_size(anchor, area, edge_margin),
        None => current,
    };
    Slot { anchor, rect: Rect::new(anchor_position(area, size, anchor, edge_margin), size) }
}

/// Whether [`slot_fits`] holds, worked out without overflowing.
pub fn slot_fits_exec(
    anchor: Anchor,
    edge_margin: i32,
    shape: Option<&Shape>,
    area: &Area,
    current: PhysicalSize,
) -> (b: bool)
    ensures
        b == slot_fits(anchor, opt_shape(shape), *area, edge_margin, current),
{
    let size = match shape {
        Some(s) => s.physical_size(anchor, area, edge_margin),
        None => current,
    };
    anchor_fits_exec(area, size, anchor, edge_margin)
}

/// Every slot a dragged window in `state` may land in, in the order the rules
/// offer them.
pub open spec fn spec_candidates(
    rules: Rules,
    state: Option<StateRules>,
    shape: Option<Shape>,
    area: Area,
    current: PhysicalSize,
) -> Seq<Slot> {
    rules.spec_slots_for(state).map_values(
        |a: Anchor| spec_slot_at(a, shape, area, rules.edge_margin, current),
    )
}

/// Working out every candidate slot overflows nowhere.
pub open spec fn candidates_fit(
    rules: Rules,
    state: Option<StateRules>,
    shape: Option<Shape>,
    area: Area,
    current: PhysicalSize,
) -> bool {
    forall|i: int|
        0 <= i < rules.spec_slots_for(state).len() ==> slot_fits(
            #[trigger] rules.spec_slots_for(state)[i],
            shape,
            area,
            rules.edge_margin,
            current,
        )
}

/// Whether [`candidates_fit`] holds, worked out without overflowing.
pub fn candidates_fit_exec(
    rules: &Rules,
    state: Option<&StateRules>,
    shape: Option<&Shape>,
    area: &Area,
    current: PhysicalSize,
) -> (b: bool)
    ensures
        b == candidates_fit(*rules, opt_state(state), opt_shape(shape), *area, current),
{
    let anchors = rules.slots_for(state);
    let ghost slots = rules.spec_slots_for(opt_state(state));
    let mut i: usize = 0;
    while i < anchors.len()
        invariant
            0 <= i <= anchors@.len(),
            anchors@ == slots,
            slots == rules.spec_slots_for(opt_state(state)),
            forall|j: int|
                0 <= j < i ==> slot_fits(
                    #[trigger] slots[j],
                    opt_shape(shape),
                    *area,
                    rules.edge_margin,
                    current,
                ),
        decreases anchors@.len() - i,
    {
        if !slot_fits_exec(anchors[i], rules.edge_margin, shape, area, current) {
            assert(!slot_fits(
                rules.spec_slots_for(opt_state(state))[i as int],
                opt_shape(shape),
                *area,
                rules.edge_margin,
                current,
            ));
            return false;
        }
        i += 1;
    }
    true
}

/// Every slot a dragged window in `state` is allowed to land in.
pub fn candidate_slots(
    rules: &Rules,
    state: Option<&StateRules>,
    shape: Option<&Shape>,
    area: &Area,
    current: PhysicalSize,
) -> (slots: Vec<Slot>)
    requires
        candidates_fit(*rules, opt_state(state), opt_shape(shape), *area, current),
    ensures
        slots@ == spec_candidates(*rules, opt_state(state), opt_shape(shape), *area, current),
        slots@.len() > 0,
{
    let anchors = rules.slots_for(state);
    let ghost want = spec_candidates(*rules, opt_state(state), opt_shape(shape), *area, current);
    let mut slots: Vec<Slot> = Vec::new();
    let mut i: usize = 0;
    while i < anchors.len()
        invariant
            0 <= i <= anchors@.len(),
            anchors@ == rules.spec_slots_for(opt_state(state)),
            want == spec_candidates(*rules, opt_state(state), opt_shape(shape), *area, current),
            candidates_fit(*rules, opt_state(state), opt_shape(shape), *area, current),
            slots@ == want.take(i as int),
        decreases anchors@.len() - i,
    {
        let slot = slot_at(anchors[i], rules.edge_margin, shape, area, current);
        slots.push(slot);
        i += 1;
        assert(slots@ =~= want.take(i as int));
    }
    assert(want.take(anchors@.len() as int) =~= want);
    slots
}

/// What the caller is to do with the window.
#[derive(Clone, Copy, Debug, PartialEq, Eq, Structural)]
pub enum Outcome {
    /// Already where it belongs.
    Parked,
    /// Asked to make this same change last time and it did not take; leave it.
    Stuck,
    /// Move it.
    Moved,
}

/// What becomes of a window found at `current` that belongs at `target`, given
/// the change attempted last time.
pub open spec fn spec_outcome(current: Rect, target: Rect, last: Option<(Rect, Rect)>) -> Outcome {
    if current == target {
        Outcome::Parked
    } else if last == Some((current, target)) {
        Outcome::Stuck
    } else {
        Outcome::Moved
    }
}

/// The change remembered as attempted after that decision.
pub open spec fn spec_next_attempt(current: Rect, target: Rect, last: Option<(Rect, Rect)>) -> Option<
    (Rect, Rect),
> {
    match spec_outcome(current, target, last) {
        Outcome::Parked => None,
        Outcome::Stuck => last,
        Outcome::Moved => Some((current, target)),
    }
}

/// What to do with a window, with the steps to take when it is to move.
#[derive(Clone, Debug)]
pub enum Action {
    Parked,
    Stuck,
    Move(Vec<MoveStep>),
}

impl Action {
    pub open spec fn outcome(self) -> Outcome {
        match self {
            Action::Parked => Outcome::Parked,
            Action::Stuck => Outcome::Stuck,
            Action::Move(_) => Outcome::Moved,
        }
    }
}

/// Where a window belongs, how that is announced, and what to do about it.
#[derive(Clone, Debug)]
pub struct Decision {
    pub slot: Slot,
    pub placement: Placement,
    pub action: Action,
}

/// The anchor asked for outright: `anchor_override`, else the state's own.
pub open spec fn explicit_anchor(state: Option<StateRules>, anchor_override: Option<Anchor>) -> Option<
    Anchor,
> {
    match anchor_override {
        Some(a) => Some(a),
        None => match state {
            Some(s) => s.anchor,
            None => None,
        },
    }
}

/// Working out where the window belongs overflows nowhere.
pub open spec fn reposition_fits(
    rules: Rules,
    state: Option<StateRules>,
    shape: Option<Shape>,
    area: Area,
    current: Rect,
    anchor_override: Option<Anchor>,
) -> bool {
    match explicit_anchor(state, anchor_override) {
        Some(a) => slot_fits(a, shape, area, rules.edge_margin, current.size),
        None => measure_fits(rules, state, shape, area, current),
    }
}

/// Measuring which candidate a window at `current` is nearest overflows
/// nowhere.
pub open spec fn measure_fits(
    rules: Rules,
    state: Option<StateRules>,
    shape: Option<Shape>,
    area: Area,
    current: Rect,
) -> bool {
    &&& candidates_fit(rules, state, shape, area, current.size)
    &&& centre_fits(current)
    &&& nearest_fits(spec_centre(current), spec_candidates(rules, state, shape, area, current.size))
}

/// `slot` is where the window belongs: the explicit anchor's slot when there
/// is one, else the candidate centred nearest the window's own centre, the
/// first such when several tie.
pub open spec fn is_target(
    rules: Rules,
    state: Option<StateRules>,
    shape: Option<Shape>,
    area: Area,
    current: Rect,
    anchor_override: Option<Anchor>,
    slot: Slot,
) -> bool {
    match explicit_anchor(state, anchor_override) {
        Some(a) => slot == spec_slot_at(a, shape, area, rules.edge_margin, current.size),
        None => exists|i: int|
            is_first_nearest(
                spec_candidates(rules, state, shape, area, current.size),
                spec_centre(current),
                i,
            ) && slot == #[trigger] spec_candidates(rules, state, shape, area, current.size)[i],
    }
}

/// Decides where a window found at `current` on `area` belongs, and what to do
/// to put it there.
///
/// The slot is chosen from where the window is *now*, before anything is
/// resized. A window already there is left alone and the remembered attempt is
/// forgotten; the same change from the same rectangle as last time did not
/// take, so the window is left where it is rather than chased; otherwise the
/// change is remembered and the steps to make it are handed back.
///
/// `None` when the arithmetic would overflow.
pub fn plan_reposition(
    rules: &Rules,
    state: Option<&StateRules>,
    shape: Option<&Shape>,
    area: &Area,
    current: Rect,
    anchor_override: Option<Anchor>,
    last_attempt: &mut Option<(Rect, Rect)>,
) -> (decision: Option<Decision>)
    ensures
        decision is None <==> !reposition_fits(
            *rules,
            opt_state(state),
            opt_shape(shape),
            *area,
            current,
            anchor_override,
        ),
        decision is None ==> *final(last_attempt) == *old(last_attempt),
        decision matches Some(d) ==> {
            &&& is_target(
                *rules,
                opt_state(state),
                opt_shape(shape),
                *area,
                current,
                anchor_override,
                d.slot,
            )
            &&& d.placement == Placement {
                anchor: d.slot.anchor,
                orientation: orientation_of(d.slot.rect.size),
            }
            &&& d.action.outcome() == spec_outcome(current, d.slot.rect, *old(last_attempt))
            &&& *final(last_attempt) == spec_next_attempt(
                current,
                d.slot.rect,
                *old(last_attempt),
            )
            &&& d.action matches Action::Move(steps) ==> steps@ == spec_move_steps(
                current.size,
                d.slot.rect,
            )
            &&& explicit_anchor(opt_state(state), anchor_override) is None ==> rules.spec_slots_for(
                opt_state(state),
            ).contains(d.slot.anchor)
        },
{
    let explicit = match anchor_override {
        Some(a) => Some(a),
        None => match state {
            Some(s) => s.anchor,
            None => None,
        },
    };
    let slot = match explicit {
        Some(anchor) => {
            if !slot_fits_exec(anchor, rules.edge_margin, shape, area, current.size) {
                return None;
            }
            slot_at(anchor, rules.edge_margin, shape, area, current.size)
        },
        None => {
            if !candidates_fit_exec(rules, state, shape, area, current.size) {
                return None;
            }
            if !centre_fits_exec(&current) {
                return None;
            }
            let candidates = candidate_slots(rules, state, shape, area, current.size);
            let centre = current.centre();
            if !nearest_fits_exec(centre, candidates.as_slice()) {
                return None;
            }
            match nearest(centre, candidates.as_slice()) {
                Some(s) => {
                    proof {
                        let cands = spec_candidates(
                            *rules,
                            opt_state(state),
                            opt_shape(shape),
                            *area,
                            current.size,
                        );
                        let i = choose|i: int|
                            is_first_nearest(cands, centre, i) && s == #[trigger] cands[i];
                        assert(rules.spec_slots_for(opt_state(state))[i] == s.anchor);
                    }
                    s
                },
                None => {
                    return None;
                },
            }
        },
    };
    let placement = Placement { anchor: slot.anchor, orientation: Orientation::of(slot.rect.size) };
    if current == slot.rect {
        *last_attempt = None;
        return Some(Decision { slot, placement, action: Action::Parked });
    }
    let same_as_last = match last_attempt {
        Some((from, to)) => *from == current && *to == slot.rect,
        None => false,
    };
    if same_as_last {
        return Some(Decision { slot, placement, action: Action::Stuck });
    }
    *last_attempt = Some((current, slot.rect));
    let steps = move_steps(current.size, slot.rect);
    Some(Decision { slot, placement, action: Action::Move(steps) })
}

/// Where the window is right now: the slot centred nearest it, and the way
/// round it actually is -- a window mid-drag has not turned yet.
///
/// `None` when the arithmetic would overflow.
pub fn measure_at(
    rules: &Rules,
    state: Option<&StateRules>,
    shape: Option<&Shape>,
    area: &Area,
    current: Rect,
) -> (found: Option<Placement>)
    ensures
        found is None <==> !measure_fits(*rules, opt_state(state), opt_shape(shape), *area, current),
        found matches Some(p) ==> {
            &&& p.orientation == orientation_of(current.size)
            &&& exists|i: int|
                is_first_nearest(
                    spec_candidates(
                        *rules,
                        opt_state(state),
                        opt_shape(shape),
                        *area,
                        current.size,
                    ),
                    spec_centre(current),
                    i,
                ) && p.anchor == (#[trigger] spec_candidates(
                    *rules,
                    opt_state(state),
                    opt_shape(shape),
                    *area,
                    current.size,
                )[i]).anchor
        },
{
    if !candidates_fit_exec(rules, state, shape, area, current.size) {
        return None;
    }
    if !centre_fits_exec(&current) {
        return None;
    }
    let candidates = candidate_slots(rules, state, shape, area, current.size);
    let centre = current.centre();
    if !nearest_fits_exec(centre, candidates.as_slice()) {
        return None;
    }
    match nearest(centre, candidates.as_slice()) {
        Some(s) => Some(Placement { anchor: s.anchor, orientation: Orientation::of(current.size) }),
        None => None,
    }
}

/// An anchor passed in outright wins over the state's own, which wins over the
/// nearest slot: only when neither is given is the window snapped to where it
/// is nearest.
pub proof fn lemma_explicit_anchor_wins(state: Option<StateRules>, anchor_override: Option<Anchor>)
    ensures
        anchor_override is Some ==> explicit_anchor(state, anchor_override) == anchor_override,
        (anchor_override is None && state is Some) ==> explicit_anchor(state, anchor_override)
            == state->0.anchor,
        (anchor_override is None && state is None) ==> explicit_anchor(state, anchor_override)
            is None,
{
}

/// A window with no shape to size it by keeps the size it has and only moves;
/// one with a shape takes that shape's size in the slot.
pub proof fn lemma_slot_size_comes_from_the_shape(
    anchor: Anchor,
    shape: Option<Shape>,
    area: Area,
    margin: i32,
    current: PhysicalSize,
)
    ensures
        spec_slot_at(anchor, shape, area, margin, current).anchor == anchor,
        shape is None ==> spec_slot_at(anchor, shape, area, margin, current).rect.size == current,
        shape is Some ==> spec_slot_at(anchor, shape, area, margin, current).rect.size
            == shape->0.spec_physical_size(anchor, area, margin),
{
}

/// A state that fills its edge, docked to the left or right, runs the height
/// of the work area less one margin at each end, and so clears the top and
/// the bottom of it by exactly the margin.
pub proof fn lemma_full_side_bar_clears_both_ends(
    shape: Shape,
    anchor: Anchor,
    area: Area,
    margin: i32,
    current: PhysicalSize,
)
    requires
        shape.stretch == Stretch::Full,
        anchor.spec_runs_vertically(),
        area.size.height <= i32::MAX,
        margin >= 0,
        area.size.height - 2 * margin >= 1,
        slot_fits(anchor, Some(shape), area, margin, current),
    ensures
        ({
            let slot = spec_slot_at(anchor, Some(shape), area, margin, current);
            &&& slot.rect.size.height == area.size.height - 2 * margin
            &&& slot.rect.position.y == area.position.y + margin
            &&& slot.rect.position.y + slot.rect.size.height == area.position.y + area.size.height
                - margin
        }),
{
    let h = area.size.height - 2 * margin;
    crate::shape::lemma_stretch_bounds(area.size.height, area.size.height as int, margin);
    let size = shape.spec_physical_size(anchor, area, margin);
    assert(size.height == h);
    assert(half(2 * margin) == margin);
    assert(signed(area.size.height) == area.size.height);
    assert(signed(h as u32) == h);
    assert(place(area.position.y as int, area.size.height as int, h, Align::Center, margin as int)
        == area.position.y + margin);
}

proof fn lemma_first_equal(s: Seq<Slot>, x: Slot, i: int) -> (k: int)
    requires
        0 <= i < s.len(),
        s[i] == x,
    ensures
        0 <= k <= i,
        s[k] == x,
        forall|j: int| 0 <= j < k ==> s[j] != x,
    decreases i,
{
    if exists|j: int| 0 <= j < i && s[j] == x {
        let j = choose|j: int| 0 <= j < i && s[j] == x;
        lemma_first_equal(s, x, j)
    } else {
        i
    }
}

/// A window the plugin has just parked stays parked: found in the slot it was
/// sent to, the next check picks the same slot and leaves the window where it
/// is -- for a dragged window, whenever no other candidate is centred in the
/// same place.
pub proof fn lemma_parked_window_stays_parked(
    rules: Rules,
    state: Option<StateRules>,
    shape: Option<Shape>,
    area: Area,
    current: Rect,
    slot: Slot,
    last: Option<(Rect, Rect)>,
)
    requires
        is_target(rules, state, shape, area, current, None, slot),
        explicit_anchor(state, None) is None ==> forall|j: int|
            0 <= j < spec_candidates(rules, state, shape, area, current.size).len() && #[trigger] spec_candidates(
                rules,
                state,
                shape,
                area,
                current.size,
            )[j] != slot ==> spec_centre(
                spec_candidates(rules, state, shape, area, current.size)[j].rect,
            ) != spec_centre(slot.rect),
    ensures
        is_target(rules, state, shape, area, slot.rect, None, slot),
        spec_outcome(slot.rect, slot.rect, last) == Outcome::Parked,
{
    if explicit_anchor(state, None) is Some {
        if shape is None {
            assert(slot.rect.size == current.size);
        }
    } else {
        let cands = spec_candidates(rules, state, shape, area, current.size);
        let c = spec_centre(slot.rect);
        let i = choose|i: int| is_first_nearest(cands, spec_centre(current), i) && slot == #[trigger] cands[i];
        let anchors = rules.spec_slots_for(state);
        assert(cands[i] == spec_slot_at(anchors[i], shape, area, rules.edge_margin, current.size));
        assert(spec_candidates(rules, state, shape, area, slot.rect.size) =~= cands) by {
            if shape is None {
                assert(slot.rect.size == current.size);
            }
        }
        let k = lemma_first_equal(cands, slot, i);
        assert(slot_key(cands[k], c) == 0);
        assert forall|j: int| 0 <= j < cands.len() implies slot_key(cands[k], c) <= slot_key(
            #[trigger] cands[j],
            c,
        ) by {
            let p = spec_centre(cands[j].rect);
            assert((p.x - c.x) * (p.x - c.x) >= 0) by (nonlinear_arith);
            assert((p.y - c.y) * (p.y - c.y) >= 0) by (nonlinear_arith);
        }
        assert forall|j: int| 0 <= j < k implies slot_key(cands[k], c) < slot_key(
            #[trigger] cands[j],
            c,
        ) by {
            assert(cands[j] != slot);
            let p = spec_centre(cands[j].rect);
            let dx = p.x - c.x;
            let dy = p.y - c.y;
            assert(p != c);
            assert(dx != 0 || dy != 0);
            assert(dx * dx >= 0) by (nonlinear_arith);
            assert(dy * dy >= 0) by (nonlinear_arith);
            assert(dx != 0 ==> dx * dx > 0) by (nonlinear_arith);
            assert(dy != 0 ==> dy * dy > 0) by (nonlinear_arith);
        }
        assert(is_first_nearest(cands, c, k));
    }
}

/// A window that would not move is not chased: once a move from `current` to
/// `target` has been attempted, the same situation again leaves it alone, and
/// keeps leaving it alone until either rectangle changes. A window found where
/// it belongs forgets the attempt, so a later change is tried afresh.
pub proof fn lemma_refused_move_is_not_chased(
    current: Rect,
    target: Rect,
    last: Option<(Rect, Rect)>,
    other: Rect,
)
    ensures
        spec_outcome(current, target, last) == Outcome::Moved ==> spec_outcome(
            current,
            target,
            spec_next_attempt(current, target, last),
        ) == Outcome::Stuck,
        spec_outcome(current, target, last) == Outcome::Stuck ==> spec_next_attempt(
            current,
            target,
            last,
        ) == last,
        spec_outcome(current, target, last) == Outcome::Parked ==> spec_next_attempt(
            current,
            target,
            last,
        ) is None,
        (spec_outcome(current, target, last) == Outcome::Parked && other != target)
            ==> spec_outcome(other, target, spec_next_attempt(current, target, last))
            == Outcome::Moved,
        spec_outcome(current, target, last) == Outcome::Moved <==> (current != target && last
            != Some((current, target))),
        spec_outcome(target, target, last) == Outcome::Parked,
{
}

} // verus!
