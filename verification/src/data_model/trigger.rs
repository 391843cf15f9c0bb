//! Triggers: a named action that runs when an event passes its filter, for as
//! many times as its repeat policy allows.

use vstd::prelude::*;

use crate::data_model::name::{AccountId, TriggerId};
use crate::data_model::value::{map_view, Metadata, ValueView};

verus! {

/// How many more times a trigger may fire.
#[derive(Clone, Copy, Debug, PartialEq, Eq, Structural)]
pub enum Repeats {
    /// No limit.
    Indefinitely,
    /// Exactly this many runs remain.
    Exactly(u32),
}

/// A schedule in time. Instants and spans are counted in milliseconds.
#[derive(Clone, Copy, Debug, PartialEq, Eq, Structural)]
pub struct TimeSchedule {
    /// The instant of the first run.
    pub start: u64,
    /// The span between two runs. Without it the schedule names one instant.
    pub period: Option<u64>,
}

/// When a time trigger runs.
#[derive(Clone, Copy, Debug, PartialEq, Eq, Structural)]
pub enum ExecutionTime {
    /// Just before a block is committed.
    PreCommit,
    /// As the schedule says.
    Schedule(TimeSchedule),
}

/// A filter for time events.
#[derive(Clone, Copy, Debug, PartialEq, Eq, Structural)]
pub struct TimeEventFilter(pub ExecutionTime);

/// The events that a trigger reacts to. Only the schedule of a time filter
/// bears on how a trigger may be registered and extended.
#[derive(Clone, Copy, Debug, PartialEq, Eq, Structural)]
pub enum EventFilter {
    /// Events of the transaction pipeline.
    Pipeline,
    /// Changes of ledger data.
    Data,
    /// The passing of time.
    Time(TimeEventFilter),
    /// An explicit call of the trigger.
    ExecuteTrigger,
}

impl EventFilter {
    /// Whether the filter names one fixed instant: a time schedule without a
    /// period.
    pub open spec fn is_exact_time(self) -> bool {
        self matches EventFilter::Time(TimeEventFilter(ExecutionTime::Schedule(schedule)))
            && schedule.period is None
    }
}

/// What a trigger does, when, how often and for whom.
#[derive(Debug)]
pub struct Action {
    /// The events that set the trigger off.
    pub filter: EventFilter,
    /// How many more times the trigger may fire.
    pub repeats: Repeats,
    /// The instructions to run, in the form that the execution engine takes.
    pub executable: Vec<u8>,
    /// The account on whose behalf the instructions run.
    pub authority: AccountId,
    /// Arbitrary named values attached to the trigger.
    pub metadata: Metadata,
}

/// A registered action under its identifier.
#[derive(Debug)]
pub struct Trigger {
    pub id: TriggerId,
    pub action: Action,
}

/// The mathematical content of an [`Action`].
pub struct ActionView {
    pub filter: EventFilter,
    pub repeats: Repeats,
    pub executable: Seq<u8>,
    pub authority: Seq<char>,
    pub metadata: Map<Seq<char>, ValueView>,
}

/// The mathematical content of a [`Trigger`].
pub struct TriggerView {
    pub id: Seq<char>,
    pub action: ActionView,
}

impl ActionView {
    /// Whether the action fires once, at one fixed instant.
    pub open spec fn occurs_exactly_at_time(self) -> bool {
        self.filter.is_exact_time()
    }

    /// Whether the action may stand in a registry: one that fires at one
    /// fixed instant has exactly one run.
    pub open spec fn is_consistent(self) -> bool {
        self.occurs_exactly_at_time() ==> self.repeats == Repeats::Exactly(1)
    }

    /// The same action with another repeat policy.
    pub open spec fn with_repeats(self, repeats: Repeats) -> ActionView {
        ActionView { repeats, ..self }
    }
}

/// The content of an action.
pub open spec fn action_view(action: Action) -> ActionView
    decreases action,
{
    ActionView {
        filter: action.filter,
        repeats: action.repeats,
        executable: action.executable@,
        authority: action.authority@,
        metadata: map_view(action.metadata),
    }
}

/// The content of a trigger.
pub open spec fn trigger_view(trigger: Trigger) -> TriggerView
    decreases trigger,
{
    TriggerView { id: trigger.id@, action: action_view(trigger.action) }
}

impl View for Action {
    type V = ActionView;

    open spec fn view(&self) -> ActionView {
        action_view(*self)
    }
}

impl View for Trigger {
    type V = TriggerView;

    open spec fn view(&self) -> TriggerView {
        trigger_view(*self)
    }
}


impl Clone for Action {
    fn clone(&self) -> (r: Action)
        ensures
            r@ == self@,
        decreases *self,
    {
        Action {
            filter: self.filter,
            repeats: self.repeats,
            executable: self.executable.clone(),
            authority: self.authority.clone(),
            metadata: self.metadata.clone(),
        }
    }
}

impl Clone for Trigger {
    fn clone(&self) -> (r: Trigger)
        ensures
            r@ == self@,
        decreases *self,
    {
        Trigger { id: self.id.clone(), action: self.action.clone() }
    }
}


impl Action {
    /// The action with the parts given.
    pub fn new(
        filter: EventFilter,
        repeats: Repeats,
        executable: Vec<u8>,
        authority: AccountId,
        metadata: Metadata,
    ) -> (r: Action)
        ensures
            r.filter == filter,
            r.repeats == repeats,
            r.executable == executable,
            r.authority == authority,
            r.metadata == metadata,
    {
        Action { filter, repeats, executable, authority, metadata }
    }

    /// Check if the action occurs exactly at a set time: its filter is a
    /// time schedule without a period.
    pub fn occurs_exactly_at_time(&self) -> (r: bool)
        ensures
            r == self@.occurs_exactly_at_time(),
    {
        match self.filter {
            EventFilter::Time(TimeEventFilter(ExecutionTime::Schedule(schedule))) => {
                schedule.period.is_none()
            },
            _ => false,
        }
    }
}

impl Trigger {
    /// The trigger `id` with the action given.
    pub fn new(id: TriggerId, action: Action) -> (r: Trigger)
        ensures
            r.id == id,
            r.action == action,
    {
        Trigger { id, action }
    }
}

/// A step in the life of a trigger, emitted by each instruction on triggers
/// that succeeds.
#[derive(Debug, PartialEq, Eq)]
pub enum TriggerEvent {
    /// The trigger was registered.
    Created(TriggerId),
    /// The trigger was unregistered.
    Deleted(TriggerId),
    /// The trigger's repeat count was raised.
    Extended(TriggerId),
    /// The trigger's repeat count was lowered.
    Shortened(TriggerId),
}

/// The mathematical content of a [`TriggerEvent`].
pub enum TriggerEventView {
    Created(Seq<char>),
    Deleted(Seq<char>),
    Extended(Seq<char>),
    Shortened(Seq<char>),
}

impl View for TriggerEvent {
    type V = TriggerEventView;

    open spec fn view(&self) -> TriggerEventView {
        match *self {
            TriggerEvent::Created(id) => TriggerEventView::Created(id@),
            TriggerEvent::Deleted(id) => TriggerEventView::Deleted(id@),
            TriggerEvent::Extended(id) => TriggerEventView::Extended(id@),
            TriggerEvent::Shortened(id) => TriggerEventView::Shortened(id@),
        }
    }
}

impl Clone for TriggerEvent {
    fn clone(&self) -> (r: TriggerEvent)
        ensures
            r == *self,
    {
        match self {
            TriggerEvent::Created(id) => TriggerEvent::Created(id.clone()),
            TriggerEvent::Deleted(id) => TriggerEvent::Deleted(id.clone()),
            TriggerEvent::Extended(id) => TriggerEvent::Extended(id.clone()),
            TriggerEvent::Shortened(id) => TriggerEvent::Shortened(id.clone()),
        }
    }
}

} // verus!
