//! The world state: the trigger registry, the lifecycle events that the
//! instructions have emitted, and the runs of triggers that were asked for.
//!
//! The registry changes through one gateway, [`WorldStateView::modify_triggers`].
//! It commits a change only where the change succeeds, so a failed
//! instruction leaves no trace.

use vstd::prelude::*;

use crate::data_model::name::{AccountId, TriggerId};
use crate::data_model::trigger::{TriggerEvent, TriggerEventView};
use crate::error::Error;
use crate::triggers::{TriggerSet, TriggerSetView};

verus! {

/// The request to run the trigger `trigger_id` on behalf of `authority`.
/// How the run ends is told later, by a notification.
#[derive(Debug, PartialEq, Eq)]
pub struct ExecuteTriggerEvent {
    pub trigger_id: TriggerId,
    pub authority: AccountId,
}

/// The mathematical content of an [`ExecuteTriggerEvent`].
pub struct ExecuteTriggerEventView {
    pub trigger_id: Seq<char>,
    pub authority: Seq<char>,
}

impl View for ExecuteTriggerEvent {
    type V = ExecuteTriggerEventView;

    open spec fn view(&self) -> ExecuteTriggerEventView {
        ExecuteTriggerEventView { trigger_id: self.trigger_id@, authority: self.authority@ }
    }
}

/// The current state of the world.
#[derive(Debug)]
pub struct WorldStateView {
    triggers: TriggerSet,
    events: Vec<TriggerEvent>,
    requests: Vec<ExecuteTriggerEvent>,
}

/// The mathematical content of a [`WorldStateView`].
pub struct WorldView {
    /// The registered triggers.
    pub triggers: TriggerSetView,
    /// The lifecycle events emitted so far, oldest first.
    pub events: Seq<TriggerEventView>,
    /// The runs asked for so far, oldest first.
    pub requests: Seq<ExecuteTriggerEventView>,
}

impl WorldView {
    /// The world without triggers, events or requests.
    pub open spec fn empty() -> WorldView {
        WorldView { triggers: TriggerSetView::empty(), events: Seq::empty(), requests: Seq::empty() }
    }

    /// The world after a change of the registry that emitted `event`.
    pub open spec fn commit(self, triggers: TriggerSetView, event: TriggerEventView) -> WorldView {
        WorldView { triggers, events: self.events.push(event), requests: self.requests }
    }

    /// The world after the run of `trigger_id` was asked for.
    pub open spec fn request(self, trigger_id: Seq<char>, authority: Seq<char>) -> WorldView {
        WorldView {
            triggers: self.triggers,
            events: self.events,
            requests: self.requests.push(ExecuteTriggerEventView { trigger_id, authority }),
        }
    }
}

/// The contents of a sequence of lifecycle events.
pub open spec fn events_view(events: Seq<TriggerEvent>) -> Seq<TriggerEventView> {
    Seq::new(events.len(), |i: int| events[i]@)
}

/// The contents of a sequence of requests.
pub open spec fn requests_view(requests: Seq<ExecuteTriggerEvent>) -> Seq<ExecuteTriggerEventView> {
    Seq::new(requests.len(), |i: int| requests[i]@)
}

impl View for WorldStateView {
    type V = WorldView;

    closed spec fn view(&self) -> WorldView {
        WorldView {
            triggers: self.triggers@,
            events: events_view(self.events@),
            requests: requests_view(self.requests@),
        }
    }
}

impl WorldStateView {
    /// The world without triggers, events or requests.
    pub fn new() -> (r: WorldStateView)
        ensures
            r@ == WorldView::empty(),
    {
        let r = WorldStateView { triggers: TriggerSet::new(), events: Vec::new(), requests: Vec::new() };
        assert(r@.events =~= Seq::empty());
        assert(r@.requests =~= Seq::empty());
        r
    }

    /// The trigger registry, to read.
    pub fn triggers(&self) -> (r: &TriggerSet)
        ensures
            r@ == self@.triggers,
    {
        &self.triggers
    }

    /// The lifecycle events emitted so far, oldest first.
    pub fn events(&self) -> (r: &Vec<TriggerEvent>)
        ensures
            events_view(r@) == self@.events,
    {
        &self.events
    }

    /// The runs asked for so far, oldest first.
    pub fn requests(&self) -> (r: &Vec<ExecuteTriggerEvent>)
        ensures
            requests_view(r@) == self@.requests,
    {
        &self.requests
    }

    /// Changes the registry by `f` and records the event that `f` reports.
    /// `f` works on a copy of the registry, which takes the registry's place
    /// only where `f` succeeds. Where `f` fails, its error is handed on
    /// untouched, nothing is recorded and the registry is as it was, whatever
    /// `f` did before it failed.
    pub fn modify_triggers<F: FnOnce(&mut TriggerSet) -> Result<TriggerEvent, Error>>(
        &mut self,
        f: F,
    ) -> (r: Result<(), Error>)
        requires
            forall|triggers: &mut TriggerSet|
                (*triggers)@ == old(self)@.triggers ==> #[trigger] f.requires((triggers,)),
        ensures
            exists|triggers: &mut TriggerSet, out: Result<TriggerEvent, Error>|
                {
                    &&& (*triggers)@ == old(self)@.triggers
                    &&& #[trigger] f.ensures((triggers,), out)
                    &&& match out {
                        Ok(event) => r is Ok && final(self)@ == old(self)@.commit(
                            final(triggers)@,
                            event@,
                        ),
                        Err(error) => r == Err::<(), Error>(error) && final(self)@ == old(self)@,
                    }
                },
    {
        let ghost before = events_view(self.events@);
        let mut staged = self.triggers.clone();
        match f(&mut staged) {
            Ok(event) => {
                self.triggers = staged;
                self.events.push(event);
                assert(events_view(self.events@) =~= before.push(event@));
                Ok(())
            },
            Err(error) => Err(error),
        }
    }

    /// Asks for a run of the trigger `trigger_id` on behalf of `authority`.
    /// Nothing comes back: how the run ends is told later, by a notification.
    pub fn execute_trigger(&mut self, trigger_id: TriggerId, authority: AccountId)
        ensures
            final(self)@ == old(self)@.request(trigger_id@, authority@),
    {
        let ghost before = requests_view(self.requests@);
        let request = ExecuteTriggerEvent { trigger_id, authority };
        self.requests.push(request);
        assert(requests_view(self.requests@) =~= before.push(request@));
    }
}

} // verus!
