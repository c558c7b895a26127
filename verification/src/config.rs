//! The rules a configuration sets: which windows are managed, which slots a
//! dragged window may land in, where a window opens, and which of the settings
//! can never take effect.
//!
//! Sizes are not in here. They are configured in logical pixels and become a
//! [`Shape`](crate::shape::Shape) once the monitor's scale is known.

use vstd::prelude::*;

use crate::geometry::{corner_seq, corners, Anchor};
use crate::names::{is_sorted, join, join_names, separator, sort_names, views};

verus! {

/// Whether `label` is one of `labels`.
pub open spec fn is_listed(labels: Seq<String>, label: Seq<char>) -> bool {
    exists|i: int| 0 <= i < labels.len() && (#[trigger] labels[i])@ == label
}

/// Which windows the plugin takes charge of.
#[derive(Clone, Debug)]
pub enum Manage {
    /// Every window the app opens.
    All,
    /// Only the windows with these labels.
    Labels(Vec<String>),
}

impl Manage {
    /// Whether the window labelled `label` is managed.
    pub open spec fn spec_covers(self, label: Seq<char>) -> bool {
        match self {
            Manage::All => true,
            Manage::Labels(labels) => is_listed(labels@, label),
        }
    }

    pub fn covers(&self, label: &str) -> (r: bool)
        ensures
            r == self.spec_covers(label@),
    {
        match self {
            Manage::All => true,
            Manage::Labels(labels) => {
                let wanted = label.to_owned();
                let mut i: usize = 0;
                while i < labels.len()
                    invariant
                        0 <= i <= labels@.len(),
                        wanted@ == label@,
                        *self == Manage::Labels(*labels),
                        forall|j: int| 0 <= j < i ==> (#[trigger] labels@[j])@ != label@,
                    decreases labels@.len() - i,
                {
                    if labels[i] == wanted {
                        assert((labels@[i as int])@ == label@);
                        return true;
                    }
                    i += 1;
                }
                false
            },
        }
    }
}

/// A list of labels manages exactly the windows labelled, letter for letter,
/// with one of its entries: a label that only starts or ends like one of them
/// is not managed. Without a list every window is managed.
pub proof fn lemma_manage_matches_whole_labels(labels: Vec<String>, label: Seq<char>)
    ensures
        Manage::All.spec_covers(label),
        Manage::Labels(labels).spec_covers(label) <==> exists|i: int|
            0 <= i < labels@.len() && (#[trigger] labels@[i])@ == label,
        forall|i: int|
            0 <= i < labels@.len() ==> Manage::Labels(labels).spec_covers((#[trigger] labels@[i])@),
        (forall|i: int| 0 <= i < labels@.len() ==> (#[trigger] labels@[i])@.len() != label.len())
            ==> !Manage::Labels(labels).spec_covers(label),
{
}

/// What the rules say about one named state.
#[derive(Clone, Debug)]
pub struct StateRules {
    /// The name `set_state` takes.
    pub name: String,
    /// Where to move when entering this state; `None` keeps the current slot.
    pub anchor: Option<Anchor>,
    /// Slots this state may be dragged into, overriding the config's own list.
    pub snap_to: Option<Vec<Anchor>>,
    /// Whether the state has a vertical size, and so turns in a side slot.
    pub turns: bool,
    /// Whether the state stretches along the edge it is docked to.
    pub stretches: bool,
}

/// Per-window overrides of where the window opens.
#[derive(Clone, Debug)]
pub struct WindowOverride {
    pub label: String,
    pub initial_state: Option<String>,
    pub initial_anchor: Option<Anchor>,
}

/// The plugin's rules, as configured.
#[derive(Clone, Debug)]
pub struct Rules {
    /// The states, by name.
    pub states: Vec<StateRules>,
    /// Which state to enter the moment the window is created.
    pub initial_state: Option<String>,
    /// Where to put the window on that first placement only.
    pub initial_anchor: Option<Anchor>,
    /// Slots a window may be dragged into.
    pub snap_to: Vec<Anchor>,
    /// Gap between the window and the edge of the work area, in physical pixels.
    pub edge_margin: i32,
    /// Which windows to manage.
    pub manage: Manage,
    /// Per-label overrides of `initial_state` and `initial_anchor`.
    pub windows: Vec<WindowOverride>,
    /// How long, in milliseconds, the window must sit still before a drag
    /// counts as finished.
    pub snap_delay_ms: u64,
    /// How often, in milliseconds, the window's placement is re-checked.
    pub placement_check_ms: u64,
}

/// Something in the rules that will only show up later as a command failing,
/// or as a setting quietly doing nothing.
#[derive(Clone, Debug)]
pub enum Problem {
    /// No states are configured, so `set_state` rejects every name.
    NoStates,
    /// The initial state names no configured state.
    UnknownInitialState(String),
    /// An override is set for a window that is not managed.
    OverrideNotManaged(String),
    /// An override's initial state names no configured state.
    UnknownOverrideState { label: String, state: String },
    /// `snapTo` is empty, so it falls back to the corners.
    EmptySnapTo,
    /// This state's `snapTo` is empty, so it falls back to the corners.
    EmptyStateSnapTo(String),
    /// This state has a vertical size but can reach no slot that runs
    /// vertically, so it never turns.
    NeverTurns(String),
    /// This state stretches but can reach no edge slot, so it never does.
    NeverStretches(String),
}

/// A copy of a list of anchors.
fn copy_anchors(v: &Vec<Anchor>) -> (r: Vec<Anchor>)
    ensures
        r@ == v@,
{
    let mut r: Vec<Anchor> = Vec::new();
    let mut i: usize = 0;
    while i < v.len()
        invariant
            0 <= i <= v@.len(),
            r@ == v@.take(i as int),
        decreases v@.len() - i,
    {
        r.push(v[i]);
        i += 1;
        assert(r@ =~= v@.take(i as int));
    }
    assert(v@.take(v@.len() as int) =~= v@);
    r
}

fn copy_name(name: &Option<String>) -> (r: Option<String>)
    ensures
        r == *name,
{
    match name {
        Some(s) => Some(s.clone()),
        None => None,
    }
}

/// Whether any of `slots` runs vertically.
pub open spec fn any_runs_vertically(slots: Seq<Anchor>) -> bool {
    exists|i: int| 0 <= i < slots.len() && (#[trigger] slots[i]).spec_runs_vertically()
}

/// Whether any of `slots` is an edge slot.
pub open spec fn any_side(slots: Seq<Anchor>) -> bool {
    exists|i: int| 0 <= i < slots.len() && (#[trigger] slots[i]).spec_is_side()
}

fn any_runs_vertically_exec(slots: &Vec<Anchor>) -> (r: bool)
    ensures
        r == any_runs_vertically(slots@),
{
    let mut i: usize = 0;
    while i < slots.len()
        invariant
            0 <= i <= slots@.len(),
            forall|j: int| 0 <= j < i ==> !(#[trigger] slots@[j]).spec_runs_vertically(),
        decreases slots@.len() - i,
    {
        if slots[i].runs_vertically() {
            return true;
        }
        i += 1;
    }
    false
}

fn any_side_exec(slots: &Vec<Anchor>) -> (r: bool)
    ensures
        r == any_side(slots@),
{
    let mut i: usize = 0;
    while i < slots.len()
        invariant
            0 <= i <= slots@.len(),
            forall|j: int| 0 <= j < i ==> !(#[trigger] slots@[j]).spec_is_side(),
        decreases slots@.len() - i,
    {
        if slots[i].is_side() {
            return true;
        }
        i += 1;
    }
    false
}

impl Rules {
    /// The slots the rules offer a window in `state`, before the fallback.
    pub open spec fn configured_slots(&self, state: Option<StateRules>) -> Seq<Anchor> {
        match state {
            Some(s) => match s.snap_to {
                Some(v) => v@,
                None => self.snap_to@,
            },
            None => self.snap_to@,
        }
    }

    /// The slots a window in `state` may be dragged into: the state's own
    /// list if it has one, else the rules' list, and the corners if that list
    /// is empty.
    pub open spec fn spec_slots_for(&self, state: Option<StateRules>) -> Seq<Anchor> {
        if self.configured_slots(state).len() == 0 {
            corner_seq()
        } else {
            self.configured_slots(state)
        }
    }

    /// Whether a state of this name is configured.
    pub open spec fn has_state(&self, name: Seq<char>) -> bool {
        exists|i: int| 0 <= i < self.states@.len() && (#[trigger] self.states@[i]).name@ == name
    }

    /// Index of the first state called `name`.
    pub open spec fn is_first_state_named(&self, name: Seq<char>, i: int) -> bool {
        &&& 0 <= i < self.states@.len()
        &&& self.states@[i].name@ == name
        &&& forall|j: int| 0 <= j < i ==> (#[trigger] self.states@[j]).name@ != name
    }

    /// Index of the first override for `label`.
    pub open spec fn is_first_override_for(&self, label: Seq<char>, i: int) -> bool {
        &&& 0 <= i < self.windows@.len()
        &&& self.windows@[i].label@ == label
        &&& forall|j: int| 0 <= j < i ==> (#[trigger] self.windows@[j]).label@ != label
    }

    /// Whether any override is for `label`.
    pub open spec fn has_override(&self, label: Seq<char>) -> bool {
        exists|i: int| 0 <= i < self.windows@.len() && (#[trigger] self.windows@[i]).label@ == label
    }

    /// The slots a window in `state` may be dragged into.
    ///
    /// An empty list would leave a dragged window nothing to snap to, which
    /// reads as "free placement" but is far more likely a mistake, so it falls
    /// back to the corners.
    pub fn slots_for(&self, state: Option<&StateRules>) -> (slots: Vec<Anchor>)
        ensures
            slots@ == self.spec_slots_for(
                match state {
                    Some(s) => Some(*s),
                    None => None,
                },
            ),
            slots@.len() > 0,
    {
        let configured: &Vec<Anchor> = match state {
            Some(s) => match &s.snap_to {
                Some(v) => v,
                None => &self.snap_to,
            },
            None => &self.snap_to,
        };
        if configured.len() == 0 {
            corners()
        } else {
            copy_anchors(configured)
        }
    }

    /// The first state called `name`, if there is one.
    pub fn find_state(&self, name: &str) -> (found: Option<&StateRules>)
        ensures
            found is None <==> !self.has_state(name@),
            found matches Some(s) ==> exists|i: int|
                self.is_first_state_named(name@, i) && *s == #[trigger] self.states@[i],
    {
        let wanted = name.to_owned();
        let mut i: usize = 0;
        while i < self.states.len()
            invariant
                0 <= i <= self.states@.len(),
                wanted@ == name@,
                forall|j: int| 0 <= j < i ==> (#[trigger] self.states@[j]).name@ != name@,
            decreases self.states@.len() - i,
        {
            if self.states[i].name == wanted {
                let found = &self.states[i];
                assert(self.is_first_state_named(name@, i as int));
                return Some(found);
            }
            i += 1;
        }
        None
    }

    /// Whether a state called `name` is configured.
    pub fn knows_state(&self, name: &str) -> (r: bool)
        ensures
            r == self.has_state(name@),
    {
        self.find_state(name).is_some()
    }

    /// The initial state a window labelled `label` opens in: its override's
    /// if the override names one, else the rules' own.
    pub open spec fn spec_initial_state(&self, label: Seq<char>) -> Option<String> {
        if self.has_override(label) {
            let i = choose|i: int| self.is_first_override_for(label, i);
            match self.windows@[i].initial_state {
                Some(s) => Some(s),
                None => self.initial_state,
            }
        } else {
            self.initial_state
        }
    }

    /// The slot a window labelled `label` opens in, the same way.
    pub open spec fn spec_initial_anchor(&self, label: Seq<char>) -> Option<Anchor> {
        if self.has_override(label) {
            let i = choose|i: int| self.is_first_override_for(label, i);
            match self.windows@[i].initial_anchor {
                Some(a) => Some(a),
                None => self.initial_anchor,
            }
        } else {
            self.initial_anchor
        }
    }

    /// The state and slot a window labelled `label` opens in.
    ///
    /// A key an override does not name falls back to the rules' own value.
    pub fn initial_for(&self, label: &str) -> (r: (Option<String>, Option<Anchor>))
        ensures
            r.0 == self.spec_initial_state(label@),
            r.1 == self.spec_initial_anchor(label@),
    {
        let wanted = label.to_owned();
        let mut i: usize = 0;
        while i < self.windows.len()
            invariant
                0 <= i <= self.windows@.len(),
                wanted@ == label@,
                forall|j: int| 0 <= j < i ==> (#[trigger] self.windows@[j]).label@ != label@,
            decreases self.windows@.len() - i,
        {
            if self.windows[i].label == wanted {
                let over = &self.windows[i];
                proof {
                    assert(self.is_first_override_for(label@, i as int));
                    let k = choose|k: int| self.is_first_override_for(label@, k);
                    if k < i {
                        assert(self.windows@[k].label@ != label@);
                    } else if k > i {
                        assert(self.windows@[i as int].label@ != label@);
                    }
                }
                let state = match &over.initial_state {
                    Some(s) => Some(s.clone()),
                    None => copy_name(&self.initial_state),
                };
                let anchor = match over.initial_anchor {
                    Some(a) => Some(a),
                    None => self.initial_anchor,
                };
                return (state, anchor);
            }
            i += 1;
        }
        (copy_name(&self.initial_state), self.initial_anchor)
    }
}

impl Rules {
    /// A window with no state, or in a state without a list of its own, is
    /// offered the rules' `snap_to` whenever that list is not empty; a state's
    /// own list, when not empty, is offered as it stands; and the corners come
    /// in only when the list that applies is empty.
    pub proof fn lemma_slots_come_from_the_list_that_applies(&self, s: StateRules)
        ensures
            self.snap_to@.len() > 0 ==> self.spec_slots_for(None) == self.snap_to@,
            self.snap_to@.len() == 0 ==> self.spec_slots_for(None) == corner_seq(),
            (s.snap_to is None && self.snap_to@.len() > 0) ==> self.spec_slots_for(Some(s))
                == self.snap_to@,
            (s.snap_to is None && self.snap_to@.len() == 0) ==> self.spec_slots_for(Some(s))
                == corner_seq(),
            (s.snap_to is Some && s.snap_to->0@.len() > 0) ==> self.spec_slots_for(Some(s))
                == s.snap_to->0@,
            (s.snap_to is Some && s.snap_to->0@.len() == 0) ==> self.spec_slots_for(Some(s))
                == corner_seq(),
    {
    }

    /// A window without an override opens in the rules' own state and slot.
    /// One with an override opens in the state and slot the override names,
    /// and, for whichever of the two it leaves out, in the rules' own.
    pub proof fn lemma_overrides_fall_back_to_the_rules(&self, label: Seq<char>, i: int)
        ensures
            !self.has_override(label) ==> self.spec_initial_state(label) == self.initial_state
                && self.spec_initial_anchor(label) == self.initial_anchor,
            (self.is_first_override_for(label, i) && self.windows@[i].initial_anchor is None)
                ==> self.spec_initial_anchor(label) == self.initial_anchor,
            (self.is_first_override_for(label, i) && self.windows@[i].initial_anchor is Some)
                ==> self.spec_initial_anchor(label) == self.windows@[i].initial_anchor,
            (self.is_first_override_for(label, i) && self.windows@[i].initial_state is None)
                ==> self.spec_initial_state(label) == self.initial_state,
            (self.is_first_override_for(label, i) && self.windows@[i].initial_state is Some)
                ==> self.spec_initial_state(label) == self.windows@[i].initial_state,
    {
        if self.is_first_override_for(label, i) {
            assert(self.has_override(label));
            let k = choose|k: int| self.is_first_override_for(label, k);
            if k < i {
                assert(self.windows@[k].label@ != label);
            } else if k > i {
                assert(self.windows@[i].label@ != label);
            }
        }
    }
}

impl Rules {
    /// What is wrong with one override.
    pub open spec fn override_problems(&self, o: WindowOverride) -> Seq<Problem> {
        let unmanaged: Seq<Problem> = if !self.manage.spec_covers(o.label@) {
            seq![Problem::OverrideNotManaged(o.label)]
        } else {
            seq![]
        };
        let unknown: Seq<Problem> = match o.initial_state {
            Some(s) => if !self.has_state(s@) {
                seq![Problem::UnknownOverrideState { label: o.label, state: s }]
            } else {
                seq![]
            },
            None => seq![],
        };
        unmanaged + unknown
    }

    /// What is wrong with the first `n` overrides, in order.
    pub open spec fn overrides_problems(&self, n: nat) -> Seq<Problem>
        decreases n,
    {
        if n == 0 || n > self.windows@.len() {
            seq![]
        } else {
            self.overrides_problems((n - 1) as nat) + self.override_problems(
                self.windows@[n - 1],
            )
        }
    }

    /// What is wrong with one state: an empty slot list of its own, a vertical
    /// size it can never use, or a stretch it can never make.
    pub open spec fn state_problems(&self, s: StateRules) -> Seq<Problem> {
        let slots = self.spec_slots_for(Some(s));
        let empty: Seq<Problem> = match s.snap_to {
            Some(v) => if v@.len() == 0 {
                seq![Problem::EmptyStateSnapTo(s.name)]
            } else {
                seq![]
            },
            None => seq![],
        };
        let turns: Seq<Problem> = if s.turns && !any_runs_vertically(slots) {
            seq![Problem::NeverTurns(s.name)]
        } else {
            seq![]
        };
        let stretches: Seq<Problem> = if s.stretches && !any_side(slots) {
            seq![Problem::NeverStretches(s.name)]
        } else {
            seq![]
        };
        empty + turns + stretches
    }

    /// What is wrong with the first `n` states, in order.
    pub open spec fn states_problems(&self, n: nat) -> Seq<Problem>
        decreases n,
    {
        if n == 0 || n > self.states@.len() {
            seq![]
        } else {
            self.states_problems((n - 1) as nat) + self.state_problems(self.states@[n - 1])
        }
    }

    /// Everything wrong with the rules, in the order it is reported.
    pub open spec fn spec_problems(&self) -> Seq<Problem> {
        let no_states: Seq<Problem> = if self.states@.len() == 0 {
            seq![Problem::NoStates]
        } else {
            seq![]
        };
        let initial: Seq<Problem> = match self.initial_state {
            Some(s) => if !self.has_state(s@) {
                seq![Problem::UnknownInitialState(s)]
            } else {
                seq![]
            },
            None => seq![],
        };
        let empty_snap: Seq<Problem> = if self.snap_to@.len() == 0 {
            seq![Problem::EmptySnapTo]
        } else {
            seq![]
        };
        no_states + initial + self.overrides_problems(self.windows@.len()) + empty_snap
            + self.states_problems(self.states@.len())
    }

    fn override_problems_exec(&self, o: &WindowOverride) -> (p: Vec<Problem>)
        ensures
            p@ == self.override_problems(*o),
    {
        let mut p: Vec<Problem> = Vec::new();
        if !self.manage.covers(o.label.as_str()) {
            p.push(Problem::OverrideNotManaged(o.label.clone()));
        }
        match &o.initial_state {
            Some(s) => {
                if !self.knows_state(s.as_str()) {
                    p.push(Problem::UnknownOverrideState { label: o.label.clone(), state: s.clone() });
                }
            },
            None => {},
        }
        assert(p@ =~= self.override_problems(*o));
        p
    }

    fn state_problems_exec(&self, s: &StateRules) -> (p: Vec<Problem>)
        ensures
            p@ == self.state_problems(*s),
    {
        let mut p: Vec<Problem> = Vec::new();
        match &s.snap_to {
            Some(v) => {
                if v.len() == 0 {
                    p.push(Problem::EmptyStateSnapTo(s.name.clone()));
                }
            },
            None => {},
        }
        let slots = self.slots_for(Some(s));
        if s.turns && !any_runs_vertically_exec(&slots) {
            p.push(Problem::NeverTurns(s.name.clone()));
        }
        if s.stretches && !any_side_exec(&slots) {
            p.push(Problem::NeverStretches(s.name.clone()));
        }
        assert(p@ =~= self.state_problems(*s));
        p
    }

    /// Everything that will only show up later as a command failing, or as a
    /// setting quietly doing nothing.
    pub fn problems(&self) -> (p: Vec<Problem>)
        ensures
            p@ == self.spec_problems(),
    {
        let mut p: Vec<Problem> = Vec::new();
        if self.states.len() == 0 {
            p.push(Problem::NoStates);
        }
        match &self.initial_state {
            Some(s) => {
                if !self.knows_state(s.as_str()) {
                    p.push(Problem::UnknownInitialState(s.clone()));
                }
            },
            None => {},
        }
        let ghost head = p@;
        let mut i: usize = 0;
        while i < self.windows.len()
            invariant
                0 <= i <= self.windows@.len(),
                p@ == head + self.overrides_problems(i as nat),
            decreases self.windows@.len() - i,
        {
            let mut more = self.override_problems_exec(&self.windows[i]);
            p.append(&mut more);
            i += 1;
            assert(p@ =~= head + self.overrides_problems(i as nat));
        }
        if self.snap_to.len() == 0 {
            p.push(Problem::EmptySnapTo);
        }
        let ghost middle = p@;
        let mut k: usize = 0;
        while k < self.states.len()
            invariant
                0 <= k <= self.states@.len(),
                p@ == middle + self.states_problems(k as nat),
            decreases self.states@.len() - k,
        {
            let mut more = self.state_problems_exec(&self.states[k]);
            p.append(&mut more);
            k += 1;
            assert(p@ =~= middle + self.states_problems(k as nat));
        }
        assert(p@ =~= self.spec_problems());
        p
    }
}

impl Rules {
    /// Whether the rules are sound: at least one state; an initial state, if
    /// any, that is configured; overrides only for managed windows, naming
    /// only configured states; a non-empty `snapTo`; and states whose own
    /// lists are non-empty and whose turning and stretching each have a slot
    /// to happen in.
    pub open spec fn is_sound(&self) -> bool {
        &&& self.states@.len() > 0
        &&& self.initial_state is Some ==> self.has_state(self.initial_state->0@)
        &&& forall|i: int|
            0 <= i < self.windows@.len() ==> {
                &&& self.manage.spec_covers((#[trigger] self.windows@[i]).label@)
                &&& self.windows@[i].initial_state is Some ==> self.has_state(
                    self.windows@[i].initial_state->0@,
                )
            }
        &&& self.snap_to@.len() > 0
        &&& forall|i: int|
            0 <= i < self.states@.len() ==> {
                &&& (#[trigger] self.states@[i]).snap_to is Some ==> self.states@[i].snap_to->0@.len()
                    > 0
                &&& self.states@[i].turns ==> any_runs_vertically(
                    self.spec_slots_for(Some(self.states@[i])),
                )
                &&& self.states@[i].stretches ==> any_side(
                    self.spec_slots_for(Some(self.states@[i])),
                )
            }
    }

    proof fn lemma_clean_overrides(&self, n: nat)
        requires
            n <= self.windows@.len(),
            forall|i: int|
                0 <= i < n ==> (#[trigger] self.override_problems(self.windows@[i])).len() == 0,
        ensures
            self.overrides_problems(n).len() == 0,
        decreases n,
    {
        if n > 0 {
            self.lemma_clean_overrides((n - 1) as nat);
            assert(self.override_problems(self.windows@[n - 1]).len() == 0);
        }
    }

    proof fn lemma_clean_states(&self, n: nat)
        requires
            n <= self.states@.len(),
            forall|i: int|
                0 <= i < n ==> (#[trigger] self.state_problems(self.states@[i])).len() == 0,
        ensures
            self.states_problems(n).len() == 0,
        decreases n,
    {
        if n > 0 {
            self.lemma_clean_states((n - 1) as nat);
            assert(self.state_problems(self.states@[n - 1]).len() == 0);
        }
    }

    /// Sound rules have nothing wrong with them. Rules without states report
    /// `NoStates` first, and an empty `snapTo` is always reported.
    pub proof fn lemma_problems_are_exactly_what_is_wrong(&self)
        ensures
            self.is_sound() ==> self.spec_problems().len() == 0,
            self.states@.len() == 0 ==> self.spec_problems().len() > 0 && self.spec_problems()[0]
                == Problem::NoStates,
            self.snap_to@.len() == 0 ==> self.spec_problems().contains(Problem::EmptySnapTo),
    {
        if self.is_sound() {
            assert forall|i: int| 0 <= i < self.windows@.len() implies (
            #[trigger] self.override_problems(self.windows@[i])).len() == 0 by {
                assert(self.manage.spec_covers(self.windows@[i].label@));
            }
            self.lemma_clean_overrides(self.windows@.len());
            assert forall|i: int| 0 <= i < self.states@.len() implies (
            #[trigger] self.state_problems(self.states@[i])).len() == 0 by {
                assert(self.states@[i].snap_to is Some ==> self.states@[i].snap_to->0@.len() > 0);
            }
            self.lemma_clean_states(self.states@.len());
        }
        if self.snap_to@.len() == 0 {
            let no_states: Seq<Problem> = if self.states@.len() == 0 {
                seq![Problem::NoStates]
            } else {
                seq![]
            };
            let initial: Seq<Problem> = match self.initial_state {
                Some(s) => if !self.has_state(s@) {
                    seq![Problem::UnknownInitialState(s)]
                } else {
                    seq![]
                },
                None => seq![],
            };
            let k: int = (no_states.len() + initial.len() + self.overrides_problems(
                self.windows@.len(),
            ).len()) as int;
            assert(self.spec_problems()[k] == Problem::EmptySnapTo);
        }
    }
}

impl Rules {
    /// The configured state names, in configuration order.
    pub open spec fn state_name_list(&self) -> Seq<String> {
        self.states@.map_values(|s: StateRules| s.name)
    }

    /// Names the caller can pass to `set_state`, sorted and separated by
    /// `", "`, for error messages; "none configured" when there are none.
    pub fn state_names(&self) -> (r: String)
        ensures
            self.state_names_ensures(r),
    {
        if self.states.len() == 0 {
            return "none configured".to_owned();
        }
        let mut names: Vec<String> = Vec::new();
        let mut i: usize = 0;
        while i < self.states.len()
            invariant
                0 <= i <= self.states@.len(),
                names@ == self.state_name_list().take(i as int),
            decreases self.states@.len() - i,
        {
            names.push(self.states[i].name.clone());
            i += 1;
            assert(names@ =~= self.state_name_list().take(i as int));
        }
        assert(self.state_name_list().take(self.states@.len() as int) =~= self.state_name_list());
        let sorted = sort_names(&names);
        let r = join_names(&sorted);
        assert(sorted@.to_multiset() == self.state_name_list().to_multiset() && is_sorted(sorted@)
            && r@ == join(views(sorted@), separator()));
        r
    }
}

impl Rules {
    /// The message a request for an unknown state is refused with.
    pub open spec fn unknown_state_message(&self, name: Seq<char>, names: Seq<char>) -> Seq<char> {
        "unknown window state '"@ + name + "'; configured states: "@ + names
    }

    /// Accepts a state name `set_state` may be given, and refuses any other
    /// with a message listing the names that do exist.
    pub fn check_state(&self, name: &str) -> (r: Result<(), String>)
        ensures
            r is Ok <==> self.has_state(name@),
            r matches Err(message) ==> exists|names: String|
                #[trigger] self.unknown_state_message(name@, names@) == message@
                    && self.state_names_ensures(names),
    {
        if self.knows_state(name) {
            return Ok(());
        }
        let names = self.state_names();
        let mut message = "unknown window state '".to_owned();
        message.append(name);
        message.append("'; configured states: ");
        message.append(names.as_str());
        assert(self.unknown_state_message(name@, names@) == message@);
        Err(message)
    }

    /// What [`Rules::state_names`] promises of the list it returns.
    pub open spec fn state_names_ensures(&self, r: String) -> bool {
        &&& self.states@.len() == 0 ==> r@ == "none configured"@
        &&& self.states@.len() > 0 ==> exists|sorted: Seq<String>|
            {
                &&& sorted.to_multiset() == self.state_name_list().to_multiset()
                &&& is_sorted(sorted)
                &&& r@ == join(views(sorted), separator())
            }
    }
}

impl Rules {
    /// No two states share a name and no two overrides share a label: what
    /// a configuration keyed by name guarantees.
    pub open spec fn keys_distinct(&self) -> bool {
        &&& forall|i: int, j: int|
            0 <= i < j < self.states@.len() ==> (#[trigger] self.states@[i]).name@ != (
            #[trigger] self.states@[j]).name@
        &&& forall|i: int, j: int|
            0 <= i < j < self.windows@.len() ==> (#[trigger] self.windows@[i]).label@ != (
            #[trigger] self.windows@[j]).label@
    }

    /// With distinct names, the state a name finds is the one state with that
    /// name, and the override a label finds is the one override for it.
    pub proof fn lemma_distinct_keys_find_the_only_match(&self, name: Seq<char>, i: int)
        requires
            self.keys_distinct(),
        ensures
            (0 <= i < self.states@.len() && self.states@[i].name@ == name) ==> self.is_first_state_named(name, i),
            (0 <= i < self.windows@.len() && self.windows@[i].label@ == name) ==> self.is_first_override_for(name, i),
            (0 <= i < self.windows@.len() && self.windows@[i].label@ == name) ==> self.spec_initial_state(name) == match self.windows@[i].initial_state {
                Some(s) => Some(s),
                None => self.initial_state,
            },
    {
        if 0 <= i < self.windows@.len() && self.windows@[i].label@ == name {
            assert(self.is_first_override_for(name, i));
            let k = choose|k: int| self.is_first_override_for(name, k);
            if k < i {
                assert(self.windows@[k].label@ != self.windows@[i].label@);
            } else if k > i {
                assert(self.windows@[i].label@ != name);
            }
        }
    }

    /// Whether [`Rules::keys_distinct`] holds.
    pub fn has_distinct_keys(&self) -> (r: bool)
        ensures
            r == self.keys_distinct(),
    {
        let mut j: usize = 0;
        while j < self.states.len()
            invariant
                0 <= j <= self.states@.len(),
                forall|a: int, b: int|
                    0 <= a < b < j ==> (#[trigger] self.states@[a]).name@ != (
                    #[trigger] self.states@[b]).name@,
            decreases self.states@.len() - j,
        {
            let mut i: usize = 0;
            while i < j
                invariant
                    0 <= i <= j < self.states@.len(),
                    forall|a: int| 0 <= a < i ==> (#[trigger] self.states@[a]).name@ != self.states@[j as int].name@,
                decreases j - i,
            {
                if self.states[i].name == self.states[j].name {
                    return false;
                }
                i += 1;
            }
            j += 1;
        }
        let mut j: usize = 0;
        while j < self.windows.len()
            invariant
                0 <= j <= self.windows@.len(),
                forall|a: int, b: int|
                    0 <= a < b < self.states@.len() ==> (#[trigger] self.states@[a]).name@ != (
                    #[trigger] self.states@[b]).name@,
                forall|a: int, b: int|
                    0 <= a < b < j ==> (#[trigger] self.windows@[a]).label@ != (
                    #[trigger] self.windows@[b]).label@,
            decreases self.windows@.len() - j,
        {
            let mut i: usize = 0;
            while i < j
                invariant
                    0 <= i <= j < self.windows@.len(),
                    forall|a: int| 0 <= a < i ==> (#[trigger] self.windows@[a]).label@ != self.windows@[j as int].label@,
                decreases j - i,
            {
                if self.windows[i].label == self.windows[j].label {
                    return false;
                }
                i += 1;
            }
            j += 1;
        }
        true
    }
}

impl Rules {
    /// Everything but the states is as it was.
    pub open spec fn same_but_states(&self, other: &Rules) -> bool {
        &&& self.initial_state == other.initial_state
        &&& self.initial_anchor == other.initial_anchor
        &&& self.snap_to == other.snap_to
        &&& self.edge_margin == other.edge_margin
        &&& self.manage == other.manage
        &&& self.windows == other.windows
        &&& self.snap_delay_ms == other.snap_delay_ms
        &&& self.placement_check_ms == other.placement_check_ms
    }

    /// Everything but the overrides is as it was.
    pub open spec fn same_but_windows(&self, other: &Rules) -> bool {
        &&& self.initial_state == other.initial_state
        &&& self.initial_anchor == other.initial_anchor
        &&& self.snap_to == other.snap_to
        &&& self.edge_margin == other.edge_margin
        &&& self.manage == other.manage
        &&& self.states == other.states
        &&& self.snap_delay_ms == other.snap_delay_ms
        &&& self.placement_check_ms == other.placement_check_ms
    }

    /// Adds a state, replacing any state of the same name, as a map keyed by
    /// name does: names stay distinct, the new state is the one its name
    /// finds, and every other name finds what it found before.
    pub fn insert_state(&mut self, state: StateRules)
        ensures
            old(self).keys_distinct() ==> final(self).keys_distinct(),
            final(self).same_but_states(&*old(self)),
            exists|i: int| final(self).is_first_state_named(state.name@, i) && #[trigger] final(self).states@[i] == state,
            forall|n: Seq<char>, i: int| n != state.name@ ==> (#[trigger] final(self).is_first_state_named(n, i) <==> old(self).is_first_state_named(n, i)
                && final(self).states@[i] == old(self).states@[i]),
            forall|n: Seq<char>| n != state.name@ ==> (#[trigger] final(self).has_state(n) <==> old(self).has_state(n)),
    {
        let ghost before = self.states@;
        let mut i: usize = 0;
        while i < self.states.len()
            invariant
                0 <= i <= self.states@.len(),
                self.states@ == before,
                *self == *old(self),
                forall|j: int| 0 <= j < i ==> (#[trigger] self.states@[j]).name@ != state.name@,
            decreases self.states@.len() - i,
        {
            if self.states[i].name == state.name {
                let ghost name = state.name@;
                self.states.set(i, state);
                proof {
                    assert forall|n: Seq<char>, k: int| n != name implies (#[trigger] self.is_first_state_named(n, k) <==> (
                        old(self).is_first_state_named(n, k) && self.states@[k] == old(self).states@[k])) by {
                        if k == i {
                            assert(self.states@[k].name@ == name);
                        }
                        if self.is_first_state_named(n, k) {
                            assert(k != i);
                            assert forall|j: int| 0 <= j < k implies (#[trigger] old(self).states@[j]).name@ != n by {
                                if j != i {
                                    assert(self.states@[j] == old(self).states@[j]);
                                }
                            }
                        }
                        if old(self).is_first_state_named(n, k) {
                            assert forall|j: int| 0 <= j < k implies (#[trigger] self.states@[j]).name@ != n by {
                                if j != i {
                                    assert(self.states@[j] == old(self).states@[j]);
                                }
                            }
                        }
                    }
                    assert forall|n: Seq<char>| n != name implies (#[trigger] self.has_state(n) <==> old(self).has_state(n)) by {
                        if self.has_state(n) {
                            let k = choose|k: int| 0 <= k < self.states@.len() && (#[trigger] self.states@[k]).name@ == n;
                            assert(k != i);
                            assert(old(self).states@[k] == self.states@[k]);
                        }
                        if old(self).has_state(n) {
                            let k = choose|k: int| 0 <= k < old(self).states@.len() && (#[trigger] old(self).states@[k]).name@ == n;
                            assert(k != i);
                            assert(old(self).states@[k] == self.states@[k]);
                        }
                    }
                    assert(self.is_first_state_named(name, i as int));
                    if old(self).keys_distinct() {
                        assert forall|a: int, b: int| 0 <= a < b < self.states@.len() implies (#[trigger] self.states@[a]).name@ != (#[trigger] self.states@[b]).name@ by {
                            if a != i && b != i {
                                assert(self.states@[a] == old(self).states@[a]);
                                assert(self.states@[b] == old(self).states@[b]);
                            } else if a == i {
                                assert(self.states@[b] == old(self).states@[b]);
                                assert(old(self).states@[a].name@ == name);
                            } else {
                                assert(self.states@[a] == old(self).states@[a]);
                                assert(old(self).states@[b].name@ == name);
                            }
                        }
                    }
                }
                return;
            }
            i += 1;
        }
        let ghost name = state.name@;
        self.states.push(state);
        proof {
            let last = before.len() as int;
            assert(self.is_first_state_named(name, last));
            assert forall|n: Seq<char>, k: int| n != name implies (#[trigger] self.is_first_state_named(n, k) <==> (
                old(self).is_first_state_named(n, k) && self.states@[k] == old(self).states@[k])) by {
                if self.is_first_state_named(n, k) {
                    assert(k != last);
                    assert forall|j: int| 0 <= j < k implies (#[trigger] old(self).states@[j]).name@ != n by {
                        assert(self.states@[j] == old(self).states@[j]);
                    }
                }
                if old(self).is_first_state_named(n, k) {
                    assert forall|j: int| 0 <= j < k implies (#[trigger] self.states@[j]).name@ != n by {
                        assert(self.states@[j] == old(self).states@[j]);
                    }
                }
            }
            assert forall|n: Seq<char>| n != name implies (#[trigger] self.has_state(n) <==> old(self).has_state(n)) by {
                if self.has_state(n) {
                    let k = choose|k: int| 0 <= k < self.states@.len() && (#[trigger] self.states@[k]).name@ == n;
                    assert(k != last);
                    assert(old(self).states@[k] == self.states@[k]);
                }
                if old(self).has_state(n) {
                    let k = choose|k: int| 0 <= k < old(self).states@.len() && (#[trigger] old(self).states@[k]).name@ == n;
                    assert(old(self).states@[k] == self.states@[k]);
                }
            }
            if old(self).keys_distinct() {
                assert forall|a: int, b: int| 0 <= a < b < self.states@.len() implies (#[trigger] self.states@[a]).name@ != (#[trigger] self.states@[b]).name@ by {
                    assert(self.states@[a] == old(self).states@[a]);
                    if b != last {
                        assert(self.states@[b] == old(self).states@[b]);
                    }
                }
            }
        }
    }
}

impl Rules {
    /// Adds an override, replacing any override for the same label, as a map
    /// keyed by label does: labels stay distinct, the new override is the one
    /// its label finds, and every other label finds what it found before.
    pub fn insert_override(&mut self, over: WindowOverride)
        ensures
            old(self).keys_distinct() ==> final(self).keys_distinct(),
            final(self).same_but_windows(&*old(self)),
            exists|i: int| final(self).is_first_override_for(over.label@, i) && #[trigger] final(self).windows@[i] == over,
            forall|n: Seq<char>, i: int| n != over.label@ ==> (#[trigger] final(self).is_first_override_for(n, i) <==> old(self).is_first_override_for(n, i)
                && final(self).windows@[i] == old(self).windows@[i]),
            forall|n: Seq<char>| n != over.label@ ==> (#[trigger] final(self).has_override(n) <==> old(self).has_override(n)),
    {
        let ghost before = self.windows@;
        let mut i: usize = 0;
        while i < self.windows.len()
            invariant
                0 <= i <= self.windows@.len(),
                self.windows@ == before,
                *self == *old(self),
                forall|j: int| 0 <= j < i ==> (#[trigger] self.windows@[j]).label@ != over.label@,
            decreases self.windows@.len() - i,
        {
            if self.windows[i].label == over.label {
                let ghost name = over.label@;
                self.windows.set(i, over);
                proof {
                    assert forall|n: Seq<char>, k: int| n != name implies (#[trigger] self.is_first_override_for(n, k) <==> (
                        old(self).is_first_override_for(n, k) && self.windows@[k] == old(self).windows@[k])) by {
                        if k == i {
                            assert(self.windows@[k].label@ == name);
                        }
                        if self.is_first_override_for(n, k) {
                            assert(k != i);
                            assert forall|j: int| 0 <= j < k implies (#[trigger] old(self).windows@[j]).label@ != n by {
                                if j != i {
                                    assert(self.windows@[j] == old(self).windows@[j]);
                                }
                            }
                        }
                        if old(self).is_first_override_for(n, k) {
                            assert forall|j: int| 0 <= j < k implies (#[trigger] self.windows@[j]).label@ != n by {
                                if j != i {
                                    assert(self.windows@[j] == old(self).windows@[j]);
                                }
                            }
                        }
                    }
                    assert forall|n: Seq<char>| n != name implies (#[trigger] self.has_override(n) <==> old(self).has_override(n)) by {
                        if self.has_override(n) {
                            let k = choose|k: int| 0 <= k < self.windows@.len() && (#[trigger] self.windows@[k]).label@ == n;
                            assert(k != i);
                            assert(old(self).windows@[k] == self.windows@[k]);
                        }
                        if old(self).has_override(n) {
                            let k = choose|k: int| 0 <= k < old(self).windows@.len() && (#[trigger] old(self).windows@[k]).label@ == n;
                            assert(k != i);
                            assert(old(self).windows@[k] == self.windows@[k]);
                        }
                    }
                    assert(self.is_first_override_for(name, i as int));
                    if old(self).keys_distinct() {
                        assert forall|a: int, b: int| 0 <= a < b < self.windows@.len() implies (#[trigger] self.windows@[a]).label@ != (#[trigger] self.windows@[b]).label@ by {
                            if a != i && b != i {
                                assert(self.windows@[a] == old(self).windows@[a]);
                                assert(self.windows@[b] == old(self).windows@[b]);
                            } else if a == i {
                                assert(self.windows@[b] == old(self).windows@[b]);
                                assert(old(self).windows@[a].label@ == name);
                            } else {
                                assert(self.windows@[a] == old(self).windows@[a]);
                                assert(old(self).windows@[b].label@ == name);
                            }
                        }
                    }
                }
                return;
            }
            i += 1;
        }
        let ghost name = over.label@;
        self.windows.push(over);
        proof {
            let last = before.len() as int;
            assert(self.is_first_override_for(name, last));
            assert forall|n: Seq<char>, k: int| n != name implies (#[trigger] self.is_first_override_for(n, k) <==> (
                old(self).is_first_override_for(n, k) && self.windows@[k] == old(self).windows@[k])) by {
                if self.is_first_override_for(n, k) {
                    assert(k != last);
                    assert forall|j: int| 0 <= j < k implies (#[trigger] old(self).windows@[j]).label@ != n by {
                        assert(self.windows@[j] == old(self).windows@[j]);
                    }
                }
                if old(self).is_first_override_for(n, k) {
                    assert forall|j: int| 0 <= j < k implies (#[trigger] self.windows@[j]).label@ != n by {
                        assert(self.windows@[j] == old(self).windows@[j]);
                    }
                }
            }
            assert forall|n: Seq<char>| n != name implies (#[trigger] self.has_override(n) <==> old(self).has_override(n)) by {
                if self.has_override(n) {
                    let k = choose|k: int| 0 <= k < self.windows@.len() && (#[trigger] self.windows@[k]).label@ == n;
                    assert(k != last);
                    assert(old(self).windows@[k] == self.windows@[k]);
                }
                if old(self).has_override(n) {
                    let k = choose|k: int| 0 <= k < old(self).windows@.len() && (#[trigger] old(self).windows@[k]).label@ == n;
                    assert(old(self).windows@[k] == self.windows@[k]);
                }
            }
            if old(self).keys_distinct() {
                assert forall|a: int, b: int| 0 <= a < b < self.windows@.len() implies (#[trigger] self.windows@[a]).label@ != (#[trigger] self.windows@[b]).label@ by {
                    assert(self.windows@[a] == old(self).windows@[a]);
                    if b != last {
                        assert(self.windows@[b] == old(self).windows@[b]);
                    }
                }
            }
        }
    }
}

impl Default for Rules {
    /// No states, the four corners, a 16-pixel margin, every window managed,
    /// a 250 ms snap delay and a placement check every 10 s.
    fn default() -> (r: Self)
        ensures
            r.states@.len() == 0,
            r.initial_state is None,
            r.initial_anchor is None,
            r.snap_to@ == corner_seq(),
            r.edge_margin == 16,
            r.manage is All,
            r.windows@.len() == 0,
            r.snap_delay_ms == 250,
            r.placement_check_ms == 10_000,
            r.keys_distinct(),
    {
        Rules {
            states: Vec::new(),
            initial_state: None,
            initial_anchor: None,
            snap_to: corners(),
            edge_margin: 16,
            manage: Manage::All,
            windows: Vec::new(),
            snap_delay_ms: 250,
            placement_check_ms: 10_000,
        }
    }
}

} // verus!
