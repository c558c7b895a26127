//! The handle holding a managed window's threads open.
//!
//! Two threads per managed window: one waits for a drag to go quiet and then
//! snaps, the other pokes it on a timer as a backstop. The decisions each
//! makes are here, as steps from what was just received to what to do next;
//! the threads only receive and carry the steps out.
//!
//! Dropping a [`Watcher`] closes both of its channels, which is how the
//! threads are told to stop.

use vstd::prelude::*;

use std::sync::mpsc::Sender;

verus! {

/// Declares std's `mpsc::Sender` to the verifier as an opaque type: a
/// watcher holds two of them and hands out copies of one.
#[verifier::external_type_specification]
#[verifier::external_body]
#[verifier::reject_recursive_types(T)]
pub struct ExSender<T>(Sender<T>);

/// Calls `Sender::clone`, which hands back another sending handle onto the
/// same channel. The contract claims the handle is the same value as the one
/// cloned: a sender is a handle onto its channel, and the copy sends to
/// exactly where the original does. Nothing is claimed of the channel's
/// contents or of when it closes.
#[verifier::external_body]
fn clone_sender(sender: &Sender<()>) -> (copy: Sender<()>)
    ensures
        copy == *sender,
{
    sender.clone()
}

/// Everything holding a managed window's threads open.
pub struct Watcher {
    moves: Sender<()>,
    _stop_ticker: Sender<()>,
}

impl Watcher {
    /// Holds the move channel the snap thread listens on, and the channel
    /// whose closing stops the ticker.
    pub fn new(moves: Sender<()>, stop_ticker: Sender<()>) -> (w: Self)
        ensures
            w.moves() == moves,
            w.stop_ticker() == stop_ticker,
    {
        Watcher { moves, _stop_ticker: stop_ticker }
    }

    /// The sender whose dropping, with the watcher, stops the ticker.
    pub closed spec fn stop_ticker(&self) -> Sender<()> {
        self._stop_ticker
    }

    /// The sender moves are reported through.
    pub closed spec fn moves(&self) -> Sender<()> {
        self.moves
    }

    /// A sender other reporters (window events, display messages) can keep:
    /// a handle onto the same move channel the snap thread listens on.
    pub fn sender(&self) -> (s: Sender<()>)
        ensures
            s == self.moves(),
    {
        clone_sender(&self.moves)
    }
}

/// What the snap thread's last receive brought.
///
/// Dragging is handled by the operating system, which reports a stream of
/// moves but no "drag finished" event, so the end of a drag is inferred from
/// the window going quiet for the snap delay.
#[derive(Clone, Copy, Debug, PartialEq, Eq, Structural)]
pub enum WatchEvent {
    /// The window moved, was resized, or the timer poked.
    Moved,
    /// Nothing arrived for the whole snap delay.
    Quiet,
    /// Every sender is gone: the window was destroyed.
    Closed,
}

/// What the snap thread does next.
#[derive(Clone, Copy, Debug, PartialEq, Eq, Structural)]
pub enum WatchAction {
    /// Wait, with no time limit, for the next move.
    Listen,
    /// Wait for the window to be still for the snap delay.
    AwaitQuiet,
    /// Snap the window into place, then listen again.
    Snap,
    /// Snap the window into place, then stop.
    SnapThenStop,
    /// Stop.
    Stop,
}

/// One step of the snap thread: from whether it is waiting for a drag to go
/// quiet, and what it just received, to whether it waits next and what it
/// does.
///
/// A move starts or prolongs the quiet period; the quiet period running out
/// snaps; the channel closing mid-drag still snaps once, and then stops.
pub open spec fn spec_watch_step(waiting: bool, event: WatchEvent) -> (bool, WatchAction) {
    match event {
        WatchEvent::Moved => (true, WatchAction::AwaitQuiet),
        WatchEvent::Quiet => if waiting {
            (false, WatchAction::Snap)
        } else {
            (false, WatchAction::Listen)
        },
        WatchEvent::Closed => if waiting {
            (false, WatchAction::SnapThenStop)
        } else {
            (false, WatchAction::Stop)
        },
    }
}

/// One step of the snap thread.
pub fn watch_step(waiting: bool, event: WatchEvent) -> (r: (bool, WatchAction))
    ensures
        r == spec_watch_step(waiting, event),
{
    match event {
        WatchEvent::Moved => (true, WatchAction::AwaitQuiet),
        WatchEvent::Quiet => if waiting {
            (false, WatchAction::Snap)
        } else {
            (false, WatchAction::Listen)
        },
        WatchEvent::Closed => if waiting {
            (false, WatchAction::SnapThenStop)
        } else {
            (false, WatchAction::Stop)
        },
    }
}

/// The actions taken, one per event, starting from `waiting`.
pub open spec fn watch_run(waiting: bool, events: Seq<WatchEvent>) -> Seq<WatchAction>
    decreases events.len(),
{
    if events.len() == 0 {
        seq![]
    } else {
        let (next, action) = spec_watch_step(waiting, events[0]);
        seq![action] + watch_run(next, events.drop_first())
    }
}

/// Whether an action snaps the window.
pub open spec fn snaps(action: WatchAction) -> bool {
    action == WatchAction::Snap || action == WatchAction::SnapThenStop
}

/// How many of `actions` snap the window.
pub open spec fn snap_count(actions: Seq<WatchAction>) -> nat
    decreases actions.len(),
{
    if actions.len() == 0 {
        0
    } else {
        (if snaps(actions[0]) {
            1nat
        } else {
            0nat
        }) + snap_count(actions.drop_first())
    }
}

/// How many of `events` are moves.
pub open spec fn move_count(events: Seq<WatchEvent>) -> nat
    decreases events.len(),
{
    if events.len() == 0 {
        0
    } else {
        (if events[0] == WatchEvent::Moved {
            1nat
        } else {
            0nat
        }) + move_count(events.drop_first())
    }
}

/// `n` moves.
pub open spec fn moves(n: nat) -> Seq<WatchEvent> {
    Seq::new(n, |i: int| WatchEvent::Moved)
}

/// A burst of moves, however long, ends in exactly one snap once the window
/// goes quiet, and the thread is listening again afterwards; closing the
/// channel instead still snaps once, and stops.
pub proof fn lemma_a_burst_snaps_once(waiting: bool, n: nat)
    requires
        n >= 1,
    ensures
        watch_run(waiting, moves(n).push(WatchEvent::Quiet)) == Seq::new(
            n,
            |i: int| WatchAction::AwaitQuiet,
        ).push(WatchAction::Snap),
        watch_run(waiting, moves(n).push(WatchEvent::Closed)) == Seq::new(
            n,
            |i: int| WatchAction::AwaitQuiet,
        ).push(WatchAction::SnapThenStop),
        snap_count(watch_run(waiting, moves(n).push(WatchEvent::Quiet))) == 1,
    decreases n,
{
    let quiet = moves(n).push(WatchEvent::Quiet);
    let closed = moves(n).push(WatchEvent::Closed);
    assert(quiet[0] == WatchEvent::Moved);
    assert(closed[0] == WatchEvent::Moved);
    if n == 1 {
        assert(quiet.drop_first() =~= seq![WatchEvent::Quiet]);
        assert(closed.drop_first() =~= seq![WatchEvent::Closed]);
        assert(watch_run(true, seq![WatchEvent::Quiet]) =~= seq![WatchAction::Snap]) by {
            reveal_with_fuel(watch_run, 2);
            assert(seq![WatchEvent::Quiet].drop_first() =~= Seq::<WatchEvent>::empty());
        }
        assert(watch_run(true, seq![WatchEvent::Closed]) =~= seq![WatchAction::SnapThenStop]) by {
            reveal_with_fuel(watch_run, 2);
            assert(seq![WatchEvent::Closed].drop_first() =~= Seq::<WatchEvent>::empty());
        }
        assert(watch_run(waiting, quiet) =~= Seq::new(1, |i: int| WatchAction::AwaitQuiet).push(
            WatchAction::Snap,
        ));
        assert(watch_run(waiting, closed) =~= Seq::new(1, |i: int| WatchAction::AwaitQuiet).push(
            WatchAction::SnapThenStop,
        ));
    } else {
        lemma_a_burst_snaps_once(true, (n - 1) as nat);
        assert(quiet.drop_first() =~= moves((n - 1) as nat).push(WatchEvent::Quiet));
        assert(closed.drop_first() =~= moves((n - 1) as nat).push(WatchEvent::Closed));
        assert(watch_run(waiting, quiet) =~= Seq::new(n, |i: int| WatchAction::AwaitQuiet).push(
            WatchAction::Snap,
        ));
        assert(watch_run(waiting, closed) =~= Seq::new(n, |i: int| WatchAction::AwaitQuiet).push(
            WatchAction::SnapThenStop,
        ));
    }
    lemma_snap_count_of_awaits_then_snap(n);
}

proof fn lemma_snap_count_of_awaits_then_snap(n: nat)
    ensures
        snap_count(Seq::new(n, |i: int| WatchAction::AwaitQuiet).push(WatchAction::Snap)) == 1,
    decreases n,
{
    let s = Seq::new(n, |i: int| WatchAction::AwaitQuiet).push(WatchAction::Snap);
    if n == 0 {
        reveal_with_fuel(snap_count, 2);
        assert(s[0] == WatchAction::Snap);
        assert(s.drop_first() =~= Seq::<WatchAction>::empty());
    } else {
        assert(s[0] == WatchAction::AwaitQuiet);
        lemma_snap_count_of_awaits_then_snap((n - 1) as nat);
        assert(s.drop_first() =~= Seq::new((n - 1) as nat, |i: int| WatchAction::AwaitQuiet).push(
            WatchAction::Snap,
        ));
    }
}

/// The window is never snapped more often than it moved: over any sequence
/// of events from a listening thread, there are no more snaps than moves.
pub proof fn lemma_no_snap_without_a_move(waiting: bool, events: Seq<WatchEvent>)
    ensures
        snap_count(watch_run(waiting, events)) <= move_count(events) + (if waiting {
            1nat
        } else {
            0nat
        }),
        !waiting ==> snap_count(watch_run(waiting, events)) <= move_count(events),
    decreases events.len(),
{
    if events.len() > 0 {
        let (next, action) = spec_watch_step(waiting, events[0]);
        lemma_no_snap_without_a_move(next, events.drop_first());
        let run = watch_run(waiting, events);
        assert(run[0] == action);
        assert(run.drop_first() =~= watch_run(next, events.drop_first()));
    }
}

/// What the timer thread's last call brought.
#[derive(Clone, Copy, Debug, PartialEq, Eq, Structural)]
pub enum TickEvent {
    /// The poke went through.
    Sent,
    /// The poke could not be sent: the snap thread is gone.
    SendFailed,
    /// The placement-check interval passed with no word to stop.
    TimedOut,
    /// Told to stop, or the watcher was dropped.
    Stopped,
}

/// What the timer thread does next.
#[derive(Clone, Copy, Debug, PartialEq, Eq, Structural)]
pub enum TickAction {
    /// Poke the snap thread, as a move would.
    Poke,
    /// Wait one placement-check interval for word to stop.
    Wait,
    /// Stop.
    Stop,
}

/// The action the timer thread starts with.
pub fn first_tick() -> (a: TickAction)
    ensures
        a == TickAction::Poke,
{
    TickAction::Poke
}

/// One step of the timer thread: a poke that went through is followed by a
/// wait, a wait that times out by another poke, and a failed poke or a word
/// to stop ends it.
pub fn tick_step(event: TickEvent) -> (a: TickAction)
    ensures
        a == match event {
            TickEvent::Sent => TickAction::Wait,
            TickEvent::TimedOut => TickAction::Poke,
            TickEvent::SendFailed | TickEvent::Stopped => TickAction::Stop,
        },
{
    match event {
        TickEvent::Sent => TickAction::Wait,
        TickEvent::TimedOut => TickAction::Poke,
        TickEvent::SendFailed => TickAction::Stop,
        TickEvent::Stopped => TickAction::Stop,
    }
}

} // verus!
