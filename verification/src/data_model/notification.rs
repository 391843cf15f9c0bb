//! Notification events and their filters.
//!
//! A notification tells subscribers how a trigger's run ended. A filter is a
//! pure predicate over such events; an absent field of a filter is a
//! wildcard.

use vstd::prelude::*;
use vstd::std_specs::convert::FromSpecImpl;

use crate::data_model::name::TriggerId;

verus! {

/// An event that arises while a block is applied.
#[derive(Debug, PartialEq, Eq)]
#[non_exhaustive]
pub enum NotificationEvent {
    /// A trigger's run has ended.
    TriggerCompleted(TriggerCompletedEvent),
}

/// The notice that a trigger was executed, and how that ended. It does not
/// change once it is made.
#[derive(Debug, PartialEq, Eq, PartialOrd, Ord)]
pub struct TriggerCompletedEvent {
    trigger_id: TriggerId,
    outcome: TriggerCompletedOutcome,
}

/// How a trigger's run ended.
#[derive(Debug, PartialEq, Eq, PartialOrd, Ord)]
pub enum TriggerCompletedOutcome {
    Success,
    /// The run failed, for the reason given.
    Failure(String),
}

/// The kind of a [`TriggerCompletedOutcome`], without the failure's reason.
#[derive(Debug, Clone, Copy, PartialEq, Eq, Structural, PartialOrd, Ord)]
pub enum TriggerCompletedOutcomeType {
    Success,
    Failure,
}

/// A filter for [`NotificationEvent`]s.
#[derive(Debug, PartialEq, Eq, PartialOrd, Ord)]
#[non_exhaustive]
pub enum NotificationEventFilter {
    /// Accepts every notification.
    AcceptAll,
    /// Accepts the completion notices that the inner filter accepts.
    TriggerCompleted(TriggerCompletedEventFilter),
}

/// A filter for [`TriggerCompletedEvent`]s. The two conditions are
/// independent, and both must hold where both are present.
#[derive(Debug, PartialEq, Eq, PartialOrd, Ord)]
pub struct TriggerCompletedEventFilter {
    trigger_id: Option<TriggerId>,
    outcome_type: Option<TriggerCompletedOutcomeType>,
}

impl TriggerCompletedOutcome {
    /// The kind of the outcome.
    pub open spec fn kind(self) -> TriggerCompletedOutcomeType {
        match self {
            TriggerCompletedOutcome::Success => TriggerCompletedOutcomeType::Success,
            TriggerCompletedOutcome::Failure(_) => TriggerCompletedOutcomeType::Failure,
        }
    }

    /// The kind of the outcome: the reason of a failure plays no part in it.
    pub fn outcome_type(&self) -> (r: TriggerCompletedOutcomeType)
        ensures
            r == self.kind(),
    {
        match self {
            TriggerCompletedOutcome::Success => TriggerCompletedOutcomeType::Success,
            TriggerCompletedOutcome::Failure(_) => TriggerCompletedOutcomeType::Failure,
        }
    }
}

impl TriggerCompletedEvent {
    /// The trigger that ran.
    pub closed spec fn spec_trigger_id(&self) -> &TriggerId {
        &self.trigger_id
    }

    /// How the run ended.
    pub closed spec fn spec_outcome(&self) -> &TriggerCompletedOutcome {
        &self.outcome
    }

    /// The notice that the run of `trigger_id` ended with `outcome`.
    pub fn new(trigger_id: TriggerId, outcome: TriggerCompletedOutcome) -> (r:
        TriggerCompletedEvent)
        ensures
            r.trigger_id() == trigger_id,
            r.outcome() == outcome,
    {
        TriggerCompletedEvent { trigger_id, outcome }
    }

    /// The trigger that ran.
    #[verifier::when_used_as_spec(spec_trigger_id)]
    pub fn trigger_id(&self) -> (r: &TriggerId)
        ensures
            r == self.trigger_id(),
    {
        &self.trigger_id
    }

    /// How the run ended.
    #[verifier::when_used_as_spec(spec_outcome)]
    pub fn outcome(&self) -> (r: &TriggerCompletedOutcome)
        ensures
            r == self.outcome(),
    {
        &self.outcome
    }
}

impl TriggerCompletedEventFilter {
    /// The trigger that the filter is bound to, if any.
    pub closed spec fn spec_trigger_id(&self) -> &Option<TriggerId> {
        &self.trigger_id
    }

    /// The kind of outcome that the filter is bound to, if any.
    pub closed spec fn spec_outcome_type(&self) -> &Option<TriggerCompletedOutcomeType> {
        &self.outcome_type
    }

    /// The filter with the two conditions given; `None` is a wildcard.
    pub fn new(
        trigger_id: Option<TriggerId>,
        outcome_type: Option<TriggerCompletedOutcomeType>,
    ) -> (r: TriggerCompletedEventFilter)
        ensures
            r.trigger_id() == trigger_id,
            r.outcome_type() == outcome_type,
    {
        TriggerCompletedEventFilter { trigger_id, outcome_type }
    }

    /// The trigger that the filter is bound to, if any.
    #[verifier::when_used_as_spec(spec_trigger_id)]
    pub fn trigger_id(&self) -> (r: &Option<TriggerId>)
        ensures
            r == self.trigger_id(),
    {
        &self.trigger_id
    }

    /// The kind of outcome that the filter is bound to, if any.
    #[verifier::when_used_as_spec(spec_outcome_type)]
    pub fn outcome_type(&self) -> (r: &Option<TriggerCompletedOutcomeType>)
        ensures
            r == self.outcome_type(),
    {
        &self.outcome_type
    }

    /// Whether the filter accepts `event`: the trigger is the configured one,
    /// where one is configured, and the outcome is of the configured kind,
    /// where one is configured.
    pub open spec fn accepts(self, event: TriggerCompletedEvent) -> bool {
        &&& self.trigger_id() matches Some(id) ==> id@ == event.trigger_id()@
        &&& self.outcome_type() matches Some(kind) ==> kind == event.outcome().kind()
    }

    /// Check if `self` accepts the `event`.
    pub fn matches(&self, event: &TriggerCompletedEvent) -> (r: bool)
        ensures
            r == self.accepts(*event),
    {
        if let Some(trigger_id) = self.trigger_id() {
            if !(*trigger_id == *event.trigger_id()) {
                return false;
            }
        }
        match (self.outcome_type(), event.outcome()) {
            (Some(TriggerCompletedOutcomeType::Success), TriggerCompletedOutcome::Failure(_)) => {
                false
            },
            (Some(TriggerCompletedOutcomeType::Failure), TriggerCompletedOutcome::Success) => false,
            _ => true,
        }
    }
}

impl NotificationEventFilter {
    /// Whether the filter accepts `event`.
    pub open spec fn accepts(self, event: NotificationEvent) -> bool {
        match (self, event) {
            (NotificationEventFilter::AcceptAll, _) => true,
            (
                NotificationEventFilter::TriggerCompleted(filter),
                NotificationEvent::TriggerCompleted(event),
            ) => filter.accepts(event),
        }
    }

    /// Check if `self` accepts the `event`.
    pub fn matches(&self, event: &NotificationEvent) -> (r: bool)
        ensures
            r == self.accepts(*event),
    {
        match (self, event) {
            (NotificationEventFilter::AcceptAll, _) => true,
            (
                NotificationEventFilter::TriggerCompleted(filter),
                NotificationEvent::TriggerCompleted(event),
            ) => filter.matches(event),
        }
    }
}

impl Clone for TriggerCompletedOutcome {
    fn clone(&self) -> (r: TriggerCompletedOutcome)
        ensures
            r == *self,
    {
        match self {
            TriggerCompletedOutcome::Success => TriggerCompletedOutcome::Success,
            TriggerCompletedOutcome::Failure(reason) => TriggerCompletedOutcome::Failure(
                reason.clone(),
            ),
        }
    }
}

impl Clone for TriggerCompletedEvent {
    fn clone(&self) -> (r: TriggerCompletedEvent)
        ensures
            r == *self,
    {
        TriggerCompletedEvent { trigger_id: self.trigger_id.clone(), outcome: self.outcome.clone() }
    }
}

impl Clone for NotificationEvent {
    fn clone(&self) -> (r: NotificationEvent)
        ensures
            r == *self,
    {
        match self {
            NotificationEvent::TriggerCompleted(event) => NotificationEvent::TriggerCompleted(
                event.clone(),
            ),
        }
    }
}

impl Clone for TriggerCompletedEventFilter {
    fn clone(&self) -> (r: TriggerCompletedEventFilter)
        ensures
            r == *self,
    {
        let trigger_id = match &self.trigger_id {
            Some(id) => Some(id.clone()),
            None => None,
        };
        TriggerCompletedEventFilter { trigger_id, outcome_type: self.outcome_type }
    }
}

impl Clone for NotificationEventFilter {
    fn clone(&self) -> (r: NotificationEventFilter)
        ensures
            r == *self,
    {
        match self {
            NotificationEventFilter::AcceptAll => NotificationEventFilter::AcceptAll,
            NotificationEventFilter::TriggerCompleted(filter) => {
                NotificationEventFilter::TriggerCompleted(filter.clone())
            },
        }
    }
}

impl From<TriggerCompletedEvent> for NotificationEvent {
    fn from(event: TriggerCompletedEvent) -> (r: NotificationEvent) {
        NotificationEvent::TriggerCompleted(event)
    }
}

impl FromSpecImpl<TriggerCompletedEvent> for NotificationEvent {
    open spec fn obeys_from_spec() -> bool {
        true
    }

    open spec fn from_spec(event: TriggerCompletedEvent) -> NotificationEvent {
        NotificationEvent::TriggerCompleted(event)
    }
}

impl From<TriggerCompletedEventFilter> for NotificationEventFilter {
    fn from(filter: TriggerCompletedEventFilter) -> (r: NotificationEventFilter) {
        NotificationEventFilter::TriggerCompleted(filter)
    }
}

impl FromSpecImpl<TriggerCompletedEventFilter> for NotificationEventFilter {
    open spec fn obeys_from_spec() -> bool {
        true
    }

    open spec fn from_spec(filter: TriggerCompletedEventFilter) -> NotificationEventFilter {
        NotificationEventFilter::TriggerCompleted(filter)
    }
}

impl From<String> for TriggerCompletedOutcome {
    fn from(reason: String) -> (r: TriggerCompletedOutcome) {
        TriggerCompletedOutcome::Failure(reason)
    }
}

impl FromSpecImpl<String> for TriggerCompletedOutcome {
    open spec fn obeys_from_spec() -> bool {
        true
    }

    open spec fn from_spec(reason: String) -> TriggerCompletedOutcome {
        TriggerCompletedOutcome::Failure(reason)
    }
}

impl From<TriggerCompletedOutcome> for TriggerCompletedOutcomeType {
    fn from(outcome: TriggerCompletedOutcome) -> (r: TriggerCompletedOutcomeType) {
        outcome.outcome_type()
    }
}

impl FromSpecImpl<TriggerCompletedOutcome> for TriggerCompletedOutcomeType {
    open spec fn obeys_from_spec() -> bool {
        true
    }

    open spec fn from_spec(outcome: TriggerCompletedOutcome) -> TriggerCompletedOutcomeType {
        outcome.kind()
    }
}

/// `AcceptAll` accepts every notification, whichever trigger it is about and
/// however the run ended.
pub proof fn accept_all_accepts_every_event(event: NotificationEvent)
    ensures
        NotificationEventFilter::AcceptAll.accepts(event),
{
}

/// A filter bound to a trigger and to no kind of outcome accepts exactly the
/// notices about that trigger, whatever their outcome.
pub proof fn trigger_bound_filter_accepts_by_id(
    filter: TriggerCompletedEventFilter,
    id: TriggerId,
    event: TriggerCompletedEvent,
)
    requires
        filter.trigger_id() == Some(id),
        filter.outcome_type() is None,
    ensures
        filter.accepts(event) <==> event.trigger_id()@ == id@,
{
}

/// A filter bound to a kind of outcome and to no trigger accepts exactly the
/// notices with an outcome of that kind, whichever trigger they are about
/// and whatever a failure's reason: one bound to failure accepts exactly the
/// failures.
pub proof fn outcome_bound_filter_accepts_by_kind(
    filter: TriggerCompletedEventFilter,
    kind: TriggerCompletedOutcomeType,
    event: TriggerCompletedEvent,
)
    requires
        filter.trigger_id() is None,
        filter.outcome_type() == Some(kind),
    ensures
        filter.accepts(event) <==> event.outcome().kind() == kind,
        kind == TriggerCompletedOutcomeType::Failure ==> (filter.accepts(event)
            <==> event.outcome() is Failure),
{
}

/// A filter with no condition accepts every completion notice.
pub proof fn unbound_filter_accepts_every_event(
    filter: TriggerCompletedEventFilter,
    event: TriggerCompletedEvent,
)
    requires
        filter.trigger_id() is None,
        filter.outcome_type() is None,
    ensures
        filter.accepts(event),
{
}

/// A filter with both conditions accepts exactly the notices that meet both.
pub proof fn bound_filter_is_conjunctive(
    filter: TriggerCompletedEventFilter,
    id: TriggerId,
    kind: TriggerCompletedOutcomeType,
    event: TriggerCompletedEvent,
)
    requires
        filter.trigger_id() == Some(id),
        filter.outcome_type() == Some(kind),
    ensures
        filter.accepts(event) <==> (event.trigger_id()@ == id@ && event.outcome().kind() == kind),
{
}

/// Only the trigger and the kind of the outcome bear on matching: a filter
/// treats two notices alike that agree in both, whatever the reasons of
/// their failures.
pub proof fn reason_plays_no_part(
    filter: TriggerCompletedEventFilter,
    one: TriggerCompletedEvent,
    other: TriggerCompletedEvent,
)
    requires
        one.trigger_id()@ == other.trigger_id()@,
        one.outcome().kind() == other.outcome().kind(),
    ensures
        filter.accepts(one) == filter.accepts(other),
{
}

} // verus!
