use ledger_triggers::data_model::name::{Name, TriggerId};
use ledger_triggers::data_model::notification::{
    NotificationEvent, NotificationEventFilter, TriggerCompletedEvent,
    TriggerCompletedEventFilter, TriggerCompletedOutcome, TriggerCompletedOutcomeType,
};

fn id(text: &str) -> TriggerId {
    TriggerId::new(Name::new(text))
}

fn success(text: &str) -> TriggerCompletedEvent {
    TriggerCompletedEvent::new(id(text), TriggerCompletedOutcome::Success)
}

fn failure(text: &str, reason: &str) -> TriggerCompletedEvent {
    TriggerCompletedEvent::new(id(text), TriggerCompletedOutcome::Failure(reason.to_string()))
}

#[test]
fn filter_bound_to_id_and_success_rejects_failure_of_that_trigger() {
    let filter = TriggerCompletedEventFilter::new(
        Some(id("T1")),
        Some(TriggerCompletedOutcomeType::Success),
    );
    assert!(!filter.matches(&failure("T1", "x")));
    assert!(filter.matches(&success("T1")));
    assert!(!filter.matches(&success("T2")));
}

#[test]
fn accept_all_matches_both_outcomes() {
    let filter = NotificationEventFilter::AcceptAll;
    assert!(filter.matches(&NotificationEvent::TriggerCompleted(success("T1"))));
    assert!(filter.matches(&NotificationEvent::TriggerCompleted(failure("T1", "boom"))));
    assert!(filter.matches(&NotificationEvent::from(failure("", ""))));
}

#[test]
fn filter_bound_to_id_matches_any_outcome_of_that_trigger() {
    let filter = TriggerCompletedEventFilter::new(Some(id("X")), None);
    assert!(filter.matches(&success("X")));
    assert!(filter.matches(&failure("X", "why")));
    assert!(!filter.matches(&success("Y")));
    assert!(!filter.matches(&failure("Y", "why")));
    assert!(!filter.matches(&success("x")));
}

#[test]
fn filter_bound_to_failure_matches_failures_of_any_trigger() {
    let filter =
        TriggerCompletedEventFilter::new(None, Some(TriggerCompletedOutcomeType::Failure));
    assert!(filter.matches(&failure("X", "why")));
    assert!(filter.matches(&failure("Y", "")));
    assert!(!filter.matches(&success("X")));
    let filter =
        TriggerCompletedEventFilter::new(None, Some(TriggerCompletedOutcomeType::Success));
    assert!(filter.matches(&success("X")));
    assert!(!filter.matches(&failure("X", "Success")));
}

#[test]
fn filter_without_conditions_matches_everything() {
    let filter = TriggerCompletedEventFilter::new(None, None);
    assert!(filter.matches(&success("X")));
    assert!(filter.matches(&failure("Y", "why")));
    let filter = NotificationEventFilter::from(filter);
    assert!(filter.matches(&NotificationEvent::from(success(""))));
}

#[test]
fn notification_filter_asks_the_filter_inside() {
    let filter = NotificationEventFilter::TriggerCompleted(TriggerCompletedEventFilter::new(
        Some(id("T1")),
        Some(TriggerCompletedOutcomeType::Failure),
    ));
    assert!(filter.matches(&NotificationEvent::TriggerCompleted(failure("T1", "x"))));
    assert!(!filter.matches(&NotificationEvent::TriggerCompleted(success("T1"))));
    assert!(!filter.matches(&NotificationEvent::TriggerCompleted(failure("T2", "x"))));
}

#[test]
fn outcome_type_forgets_the_reason() {
    assert_eq!(TriggerCompletedOutcome::Success.outcome_type(), TriggerCompletedOutcomeType::Success);
    assert_eq!(
        TriggerCompletedOutcome::Failure("a".to_string()).outcome_type(),
        TriggerCompletedOutcomeType::Failure
    );
    assert_eq!(
        TriggerCompletedOutcomeType::from(TriggerCompletedOutcome::from("b".to_string())),
        TriggerCompletedOutcomeType::Failure
    );
}

#[test]
fn getters_hand_the_fields_out() {
    let event = failure("T1", "why");
    assert_eq!(event.trigger_id(), &id("T1"));
    assert_eq!(event.outcome(), &TriggerCompletedOutcome::Failure("why".to_string()));
    let filter =
        TriggerCompletedEventFilter::new(Some(id("T1")), Some(TriggerCompletedOutcomeType::Success));
    assert_eq!(filter.trigger_id(), &Some(id("T1")));
    assert_eq!(filter.outcome_type(), &Some(TriggerCompletedOutcomeType::Success));
}

#[test]
fn events_and_filters_clone_as_they_are() {
    let event = NotificationEvent::from(failure("T1", "why"));
    assert_eq!(event.clone(), event);
    let filter = NotificationEventFilter::from(TriggerCompletedEventFilter::new(
        Some(id("T1")),
        Some(TriggerCompletedOutcomeType::Failure),
    ));
    assert_eq!(filter.clone(), filter);
    assert_eq!(NotificationEventFilter::AcceptAll.clone(), NotificationEventFilter::AcceptAll);
    assert!(filter.clone().matches(&event.clone()));
}
