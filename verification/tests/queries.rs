use ledger_triggers::data_model::isi::{Register, Unregister};
use ledger_triggers::data_model::name::{AccountId, Name, TriggerId};
use ledger_triggers::data_model::query::{
    Expression, FindAllActiveTriggerIds, FindTriggerById, FindTriggerKeyValueByIdAndKey, QueryBox,
};
use ledger_triggers::data_model::trigger::{Action, EventFilter, Repeats, Trigger};
use ledger_triggers::data_model::value::{Value, ValueMap};
use ledger_triggers::error::{EvaluationError, FindError, QueryExecutionFailure};
use ledger_triggers::smartcontracts::{Context, Execute, ValidQuery};
use ledger_triggers::wsv::WorldStateView;

fn id(text: &str) -> TriggerId {
    TriggerId::new(Name::new(text))
}

fn alice() -> AccountId {
    AccountId::new(Name::new("alice@wonderland"))
}

fn world() -> WorldStateView {
    let mut wsv = WorldStateView::new();
    let mut metadata = ValueMap::new();
    metadata.insert(Name::new("colour"), Value::Text("red".to_string()));
    metadata.insert(Name::new("weight"), Value::U32(12));
    metadata.insert(Name::new("next"), Value::Id(id("T2")));
    metadata.insert(Name::new("alias"), Value::Name(Name::new("weight")));
    let first = Action::new(EventFilter::Data, Repeats::Exactly(3), vec![7], alice(), metadata);
    let second =
        Action::new(EventFilter::Pipeline, Repeats::Indefinitely, vec![], alice(), ValueMap::new());
    Register::new(Trigger::new(id("T1"), first)).execute(alice(), &mut wsv).expect("registers");
    Register::new(Trigger::new(id("T2"), second)).execute(alice(), &mut wsv).expect("registers");
    wsv
}

fn key_value(id_text: &str, key: &str) -> FindTriggerKeyValueByIdAndKey {
    FindTriggerKeyValueByIdAndKey::new(Expression::id(id(id_text)), Expression::name(Name::new(key)))
}

#[test]
fn find_all_active_trigger_ids_lists_every_trigger() {
    let wsv = world();
    assert_eq!(FindAllActiveTriggerIds.execute(&wsv), Ok(vec![id("T1"), id("T2")]));
    assert_eq!(FindAllActiveTriggerIds.execute(&WorldStateView::new()), Ok(vec![]));
}

#[test]
fn find_all_active_trigger_ids_into_value_is_a_list_of_ids() {
    let wsv = world();
    match FindAllActiveTriggerIds.execute_into_value(&wsv) {
        Ok(Value::List(items)) => {
            assert_eq!(items.len(), 2);
            assert!(matches!(&items[0], Value::Id(found) if *found == id("T1")));
            assert!(matches!(&items[1], Value::Id(found) if *found == id("T2")));
        }
        other => panic!("not a list: {:?}", other),
    }
}

#[test]
fn find_trigger_by_id_finds_the_trigger() {
    let wsv = world();
    let trigger = FindTriggerById::new(Expression::id(id("T1"))).execute(&wsv).expect("is there");
    assert_eq!(trigger.id, id("T1"));
    assert_eq!(trigger.action.repeats, Repeats::Exactly(3));
    assert_eq!(trigger.action.filter, EventFilter::Data);
    assert_eq!(trigger.action.executable, vec![7]);
    assert_eq!(trigger.action.authority, alice());
    assert_eq!(trigger.action.metadata.len(), 4);
    assert!(matches!(trigger.action.metadata.get(&Name::new("weight")), Some(Value::U32(12))));
}

#[test]
fn find_trigger_by_id_fails_on_unknown_id() {
    let wsv = world();
    assert_eq!(
        FindTriggerById::new(Expression::id(id("T9"))).execute(&wsv).map(|trigger| trigger.id),
        Err(QueryExecutionFailure::Find(FindError::Trigger(id("T9"))))
    );
}

#[test]
fn find_trigger_by_id_fails_after_unregister() {
    let mut wsv = world();
    Unregister::new(id("T1")).execute(alice(), &mut wsv).expect("unregisters");
    assert_eq!(
        FindTriggerById::new(Expression::id(id("T1"))).execute(&wsv).map(|trigger| trigger.id),
        Err(QueryExecutionFailure::Find(FindError::Trigger(id("T1"))))
    );
    assert_eq!(FindAllActiveTriggerIds.execute(&wsv), Ok(vec![id("T2")]));
}

#[test]
fn find_trigger_by_id_into_value_wraps_the_trigger() {
    let wsv = world();
    match FindTriggerById::new(Expression::id(id("T2"))).execute_into_value(&wsv) {
        Ok(Value::Trigger(trigger)) => {
            assert_eq!(trigger.id, id("T2"));
            assert_eq!(trigger.action.repeats, Repeats::Indefinitely);
        }
        other => panic!("not a trigger: {:?}", other),
    }
}

#[test]
fn find_trigger_by_id_reports_an_id_of_the_wrong_type() {
    let wsv = world();
    let query = FindTriggerById::new(Expression::Raw(Value::U32(4)));
    assert_eq!(
        query.execute(&wsv).map(|trigger| trigger.id),
        Err(QueryExecutionFailure::Evaluate(
            "Failed to evaluate trigger id. Expected a value of type TriggerId".to_string()
        ))
    );
}

#[test]
fn find_trigger_by_id_reports_an_unbound_name() {
    let wsv = world();
    let query = FindTriggerById::new(Expression::ContextValue(Name::new("x")));
    assert_eq!(
        query.execute(&wsv).map(|trigger| trigger.id),
        Err(QueryExecutionFailure::Evaluate(
            "Failed to evaluate trigger id. Value with name `x` not found in context".to_string()
        ))
    );
}

#[test]
fn find_trigger_key_value_finds_the_value() {
    let wsv = world();
    assert!(matches!(key_value("T1", "weight").execute(&wsv), Ok(Value::U32(12))));
    assert!(
        matches!(key_value("T1", "colour").execute(&wsv), Ok(Value::Text(text)) if text == "red")
    );
    assert!(matches!(key_value("T1", "weight").execute_into_value(&wsv), Ok(Value::U32(12))));
}

#[test]
fn find_trigger_key_value_fails_on_unknown_key() {
    let wsv = world();
    assert!(matches!(
        key_value("T1", "height").execute(&wsv),
        Err(QueryExecutionFailure::Find(FindError::MetadataKey(name))) if name == Name::new("height")
    ));
    assert!(matches!(
        key_value("T2", "weight").execute(&wsv),
        Err(QueryExecutionFailure::Find(FindError::MetadataKey(name))) if name == Name::new("weight")
    ));
}

#[test]
fn find_trigger_key_value_looks_the_trigger_up_before_the_key() {
    let wsv = world();
    let query = FindTriggerKeyValueByIdAndKey::new(
        Expression::id(id("T9")),
        Expression::Raw(Value::Bool(true)),
    );
    assert!(matches!(
        query.execute(&wsv),
        Err(QueryExecutionFailure::Find(FindError::Trigger(found))) if found == id("T9")
    ));
}

#[test]
fn find_trigger_key_value_reports_a_key_that_does_not_evaluate() {
    let wsv = world();
    let query = FindTriggerKeyValueByIdAndKey::new(
        Expression::id(id("T1")),
        Expression::Raw(Value::Text("weight".to_string())),
    );
    assert!(matches!(
        query.execute(&wsv),
        Err(QueryExecutionFailure::Evaluate(text))
            if text == "Failed to evaluate key. Expected a value of type Name"
    ));
}

#[test]
fn expressions_may_hold_queries() {
    let wsv = world();
    // The identifier is itself looked up: the entry `next` of T1 names T2.
    let inner = QueryBox::FindTriggerKeyValueByIdAndKey(key_value("T1", "next"));
    let query = FindTriggerById::new(Expression::Query(Box::new(inner)));
    assert_eq!(query.execute(&wsv).map(|trigger| trigger.id), Ok(id("T2")));

    // The key is looked up too: the entry `alias` of T1 names the key `weight`.
    let alias = QueryBox::FindTriggerKeyValueByIdAndKey(key_value("T1", "alias"));
    let query = FindTriggerKeyValueByIdAndKey::new(
        Expression::id(id("T1")),
        Expression::Query(Box::new(alias)),
    );
    assert!(matches!(query.execute(&wsv), Ok(Value::U32(12))));
}

#[test]
fn a_failing_inner_query_is_reported_by_the_outer_one() {
    let wsv = world();
    let inner = QueryBox::FindTriggerById(FindTriggerById::new(Expression::id(id("T9"))));
    let query = FindTriggerById::new(Expression::Query(Box::new(inner)));
    assert_eq!(
        query.execute(&wsv).map(|trigger| trigger.id),
        Err(QueryExecutionFailure::Evaluate(
            "Failed to evaluate trigger id. Trigger with id `T9` not found".to_string()
        ))
    );
    let inner = QueryBox::FindTriggerById(FindTriggerById::new(Expression::Raw(Value::U32(1))));
    let query = FindTriggerById::new(Expression::Query(Box::new(inner)));
    assert_eq!(
        query.execute(&wsv).map(|trigger| trigger.id),
        Err(QueryExecutionFailure::Evaluate(
            "Failed to evaluate trigger id. Evaluation failed. Failed to evaluate trigger id. \
             Expected a value of type TriggerId"
                .to_string()
        ))
    );
}

#[test]
fn query_box_answers_as_the_query_inside() {
    let wsv = world();
    let query = QueryBox::FindTriggerKeyValueByIdAndKey(key_value("T1", "weight"));
    assert!(matches!(query.execute(&wsv), Ok(Value::U32(12))));
    assert!(matches!(query.execute_into_value(&wsv), Ok(Value::U32(12))));
    let query = QueryBox::FindAllActiveTriggerIds(FindAllActiveTriggerIds);
    assert!(matches!(query.execute(&wsv), Ok(Value::List(items)) if items.len() == 2));
    let query = QueryBox::FindTriggerById(FindTriggerById::new(Expression::id(id("T9"))));
    assert_eq!(
        query.execute(&wsv).map(|_| ()),
        Err(QueryExecutionFailure::Find(FindError::Trigger(id("T9"))))
    );
}

#[test]
fn queries_leave_the_world_as_it_is() {
    let wsv = world();
    let events = wsv.events().len();
    let _ = FindAllActiveTriggerIds.execute(&wsv);
    let _ = FindTriggerById::new(Expression::id(id("T1"))).execute(&wsv);
    let _ = key_value("T1", "weight").execute(&wsv);
    assert_eq!(wsv.events().len(), events);
    assert_eq!(wsv.triggers().ids(), vec![id("T1"), id("T2")]);
    assert!(wsv.requests().is_empty());
}

#[test]
fn context_binds_and_rebinds_names() {
    let wsv = world();
    let mut context = Context::new(&wsv);
    assert!(context.get(&Name::new("x")).is_none());
    context.update(vec![
        (Name::new("x"), Value::U32(1)),
        (Name::new("y"), Value::Bool(true)),
        (Name::new("x"), Value::U32(2)),
    ]);
    assert!(matches!(context.get(&Name::new("x")), Some(Value::U32(2))));
    assert!(matches!(context.get(&Name::new("y")), Some(Value::Bool(true))));
    assert!(context.get(&Name::new("z")).is_none());
    context.update(vec![(Name::new("y"), Value::Bool(false))]);
    assert!(matches!(context.get(&Name::new("y")), Some(Value::Bool(false))));
    assert!(matches!(context.get(&Name::new("x")), Some(Value::U32(2))));
}

#[test]
fn context_puts_queries_to_its_world() {
    let wsv = world();
    let context = Context::new(&wsv);
    let query = QueryBox::FindTriggerKeyValueByIdAndKey(key_value("T1", "weight"));
    assert!(matches!(context.query(&query), Ok(Value::U32(12))));
    let empty = WorldStateView::new();
    let context = Context::new(&empty);
    assert!(matches!(
        context.query(&query),
        Err(QueryExecutionFailure::Find(FindError::Trigger(found))) if found == id("T1")
    ));
}

#[test]
fn expressions_read_the_context() {
    let wsv = world();
    let mut context = Context::new(&wsv);
    context.update(vec![(Name::new("which"), Value::Id(id("T2")))]);
    let bound = Expression::ContextValue(Name::new("which"));
    assert!(matches!(bound.evaluate(&context), Ok(Value::Id(found)) if found == id("T2")));
    let unbound = Expression::ContextValue(Name::new("other"));
    assert_eq!(
        unbound.evaluate(&context).map(|_| ()),
        Err(EvaluationError::Find(Name::new("other")))
    );
    let copy = context.clone();
    assert!(matches!(bound.evaluate(&copy), Ok(Value::Id(found)) if found == id("T2")));
    assert!(matches!(Expression::Raw(Value::U32(3)).evaluate(&context), Ok(Value::U32(3))));
}

#[test]
fn values_convert_to_identifiers_and_names() {
    assert_eq!(Value::Id(id("T1")).into_trigger_id(), Ok(id("T1")));
    assert_eq!(
        Value::Name(Name::new("T1")).into_trigger_id(),
        Err(EvaluationError::Conversion("TriggerId".to_string()))
    );
    assert_eq!(Value::Name(Name::new("k")).into_name(), Ok(Name::new("k")));
    assert_eq!(
        Value::Id(id("k")).into_name(),
        Err(EvaluationError::Conversion("Name".to_string()))
    );
}

#[test]
fn failures_speak() {
    assert_eq!(FindError::Trigger(id("T1")).message(), "Trigger with id `T1` not found");
    assert_eq!(FindError::MetadataKey(Name::new("k")).message(), "Metadata key `k` not found");
    assert_eq!(
        QueryExecutionFailure::Evaluate("why".to_string()).message(),
        "Evaluation failed. why"
    );
    assert_eq!(
        QueryExecutionFailure::Find(FindError::Trigger(id("T1"))).message(),
        "Trigger with id `T1` not found"
    );
    assert_eq!(
        EvaluationError::Find(Name::new("x")).message(),
        "Value with name `x` not found in context"
    );
    assert_eq!(
        EvaluationError::Conversion("Name".to_string()).message(),
        "Expected a value of type Name"
    );
    assert_eq!(
        EvaluationError::Query(QueryExecutionFailure::Find(FindError::MetadataKey(Name::new("k"))))
            .message(),
        "Metadata key `k` not found"
    );
}

#[test]
fn a_failing_query_inside_an_expression_is_an_evaluation_error() {
    let wsv = world();
    let context = Context::new(&wsv);
    let inner = QueryBox::FindTriggerById(FindTriggerById::new(Expression::id(id("T9"))));
    assert_eq!(
        Expression::Query(Box::new(inner)).evaluate(&context).map(|_| ()),
        Err(EvaluationError::Query(QueryExecutionFailure::Find(FindError::Trigger(id("T9")))))
    );
    let inner = QueryBox::FindAllActiveTriggerIds(FindAllActiveTriggerIds);
    assert!(matches!(
        Expression::Query(Box::new(inner)).evaluate(&context),
        Ok(Value::List(items)) if items.len() == 2
    ));
}

#[test]
fn outputs_go_into_values() {
    match FindAllActiveTriggerIds::into_value(vec![id("a"), id("b")]) {
        Value::List(items) => {
            assert_eq!(items.len(), 2);
            assert!(matches!(&items[1], Value::Id(found) if *found == id("b")));
        }
        other => panic!("not a list: {:?}", other),
    }
    assert!(matches!(FindAllActiveTriggerIds::into_value(vec![]), Value::List(items) if items.is_empty()));
    let trigger = Trigger::new(
        id("t"),
        Action::new(EventFilter::Data, Repeats::Exactly(5), vec![], alice(), ValueMap::new()),
    );
    assert!(matches!(
        FindTriggerById::into_value(trigger),
        Value::Trigger(found) if found.id == id("t") && found.action.repeats == Repeats::Exactly(5)
    ));
    assert!(matches!(
        FindTriggerKeyValueByIdAndKey::into_value(Value::Bool(true)),
        Value::Bool(true)
    ));
    assert!(matches!(QueryBox::into_value(Value::U32(9)), Value::U32(9)));
}
