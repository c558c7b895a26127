//! What the plugin remembers about one window between calls: which state it
//! is in, and the last placement announced for it.

use vstd::prelude::*;

use crate::report::{spec_note, Placement, Reporter};

verus! {

/// What the plugin remembers about one window.
///
/// The state name has to be in here: once the slot decides the size, a snap
/// has to look up the state's sizes, and for that it needs to know which
/// state the window is in.
///
/// There is one per window and it is not copied, so everything that asks
/// about or reports on the window shares it.
#[derive(Debug)]
pub struct WindowRecord {
    reporter: Reporter,
    state: Option<String>,
}

impl WindowRecord {
    /// The last placement announced for the window.
    pub closed spec fn reported(&self) -> Option<Placement> {
        self.reporter@
    }

    /// The name of the state the window is in, if the plugin has been told.
    pub closed spec fn state_name(&self) -> Option<Seq<char>> {
        match self.state {
            Some(s) => Some(s@),
            None => None,
        }
    }

    /// A window nothing is known about yet.
    pub fn new() -> (t: Self)
        ensures
            t.reported() is None,
            t.state_name() is None,
    {
        WindowRecord { reporter: Reporter::new(), state: None }
    }

    pub fn reporter(&self) -> (r: &Reporter)
        ensures
            r@ == self.reported(),
    {
        &self.reporter
    }

    /// The name of the state the window is in, if the plugin has been told.
    pub fn state(&self) -> (name: Option<String>)
        ensures
            match name {
                Some(s) => self.state_name() == Some(s@),
                None => self.state_name() is None,
            },
    {
        match &self.state {
            Some(s) => Some(s.clone()),
            None => None,
        }
    }

    /// Records that the window is now in the state called `name`.
    pub fn set_state(&mut self, name: &str)
        ensures
            final(self).state_name() == Some(name@),
            final(self).reported() == old(self).reported(),
    {
        self.state = Some(name.to_owned());
    }

    /// The answer to "where is the window?": the placement just measured,
    /// recorded without being announced, or the last one recorded when there
    /// was nothing to measure.
    pub fn answer(&mut self, measured: Option<Placement>) -> (r: Option<Placement>)
        ensures
            measured is Some ==> r == measured && final(self).reported() == measured,
            measured is None ==> r == old(self).reported() && final(self).reported() == old(
                self,
            ).reported(),
            final(self).state_name() == old(self).state_name(),
    {
        match measured {
            Some(p) => {
                self.reporter.note(p);
                Some(p)
            },
            None => self.reporter.last(),
        }
    }

    /// Records a placement and says whether it is news.
    pub fn note(&mut self, placement: Placement) -> (news: bool)
        ensures
            (news, final(self).reported()) == spec_note(old(self).reported(), placement),
            final(self).state_name() == old(self).state_name(),
    {
        self.reporter.note(placement)
    }
}

impl Default for WindowRecord {
    fn default() -> (t: Self)
        ensures
            t.reported() is None,
            t.state_name() is None,
    {
        WindowRecord::new()
    }
}

} // verus!
