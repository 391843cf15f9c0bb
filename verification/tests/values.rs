use ledger_triggers::data_model::name::{AccountId, Name, TriggerId};
use ledger_triggers::data_model::trigger::{Action, EventFilter, Repeats, Trigger};
use ledger_triggers::data_model::value::{Value, ValueMap};
use ledger_triggers::error::{Error, FindError, MathError};
use ledger_triggers::triggers::TriggerSet;

fn id(text: &str) -> TriggerId {
    TriggerId::new(Name::new(text))
}

fn action(repeats: Repeats) -> Action {
    Action::new(
        EventFilter::Data,
        repeats,
        vec![],
        AccountId::new(Name::new("alice@wonderland")),
        ValueMap::new(),
    )
}

#[test]
fn names_compare_by_their_text() {
    assert_eq!(Name::new("a"), Name::new("a"));
    assert_ne!(Name::new("a"), Name::new("b"));
    assert_ne!(Name::new("a"), Name::new("A"));
    assert_ne!(Name::new(""), Name::new(" "));
    assert_eq!(Name::new("a").clone(), Name::new("a"));
    assert_eq!(Name::new("abc").as_str(), "abc");
    assert_eq!(id("T1"), id("T1"));
    assert_ne!(id("T1"), id("T2"));
    assert_eq!(id("T1").name(), &Name::new("T1"));
    assert_eq!(AccountId::new(Name::new("a")).name(), &Name::new("a"));
}

#[test]
fn value_map_inserts_and_overwrites() {
    let mut map = ValueMap::new();
    assert_eq!(map.len(), 0);
    assert!(map.insert(Name::new("a"), Value::U32(1)).is_none());
    assert!(map.insert(Name::new("b"), Value::U32(2)).is_none());
    assert!(matches!(map.insert(Name::new("a"), Value::U32(3)), Some(Value::U32(1))));
    assert_eq!(map.len(), 2);
    assert!(matches!(map.get(&Name::new("a")), Some(Value::U32(3))));
    assert!(matches!(map.get(&Name::new("b")), Some(Value::U32(2))));
    assert!(map.get(&Name::new("c")).is_none());
    assert!(map.contains(&Name::new("a")));
    assert!(!map.contains(&Name::new("c")));
}

#[test]
fn value_map_removes() {
    let mut map = ValueMap::new();
    map.insert(Name::new("a"), Value::U32(1));
    map.insert(Name::new("b"), Value::U32(2));
    map.insert(Name::new("c"), Value::U32(3));
    assert!(matches!(map.remove(&Name::new("b")), Some(Value::U32(2))));
    assert!(map.remove(&Name::new("b")).is_none());
    assert_eq!(map.len(), 2);
    assert!(matches!(map.get(&Name::new("a")), Some(Value::U32(1))));
    assert!(matches!(map.get(&Name::new("c")), Some(Value::U32(3))));
}

#[test]
fn value_map_extends_in_order() {
    let mut map = ValueMap::new();
    map.insert(Name::new("a"), Value::U32(1));
    map.extend(vec![
        (Name::new("b"), Value::U32(2)),
        (Name::new("a"), Value::U32(5)),
        (Name::new("b"), Value::U32(7)),
    ]);
    assert_eq!(map.len(), 2);
    assert!(matches!(map.get(&Name::new("a")), Some(Value::U32(5))));
    assert!(matches!(map.get(&Name::new("b")), Some(Value::U32(7))));
}

#[test]
fn clones_are_deep() {
    let mut metadata = ValueMap::new();
    metadata.insert(
        Name::new("list"),
        Value::List(vec![Value::Bool(true), Value::Text("x".to_string())]),
    );
    let inner = Trigger::new(id("inner"), action(Repeats::Exactly(2)));
    metadata.insert(Name::new("trigger"), Value::Trigger(Box::new(inner)));
    let source = Action::new(
        EventFilter::Pipeline,
        Repeats::Exactly(4),
        vec![9, 8],
        AccountId::new(Name::new("bob")),
        metadata,
    );
    let mut copy = source.clone();
    copy.metadata.insert(Name::new("list"), Value::U32(0));
    copy.repeats = Repeats::Indefinitely;
    assert_eq!(source.repeats, Repeats::Exactly(4));
    assert_eq!(source.executable, vec![9, 8]);
    match source.metadata.get(&Name::new("list")) {
        Some(Value::List(items)) => {
            assert!(matches!(items[0], Value::Bool(true)));
            assert!(matches!(&items[1], Value::Text(text) if text == "x"));
        }
        other => panic!("not a list: {:?}", other),
    }
    match copy.metadata.get(&Name::new("trigger")) {
        Some(Value::Trigger(trigger)) => {
            assert_eq!(trigger.id, id("inner"));
            assert_eq!(trigger.action.repeats, Repeats::Exactly(2));
        }
        other => panic!("not a trigger: {:?}", other),
    }
}

#[test]
fn trigger_set_adds_gets_and_removes() {
    let mut set = TriggerSet::new();
    assert_eq!(set.len(), 0);
    assert_eq!(set.add(Trigger::new(id("a"), action(Repeats::Exactly(1)))), Ok(()));
    assert_eq!(set.add(Trigger::new(id("b"), action(Repeats::Exactly(2)))), Ok(()));
    assert_eq!(
        set.add(Trigger::new(id("a"), action(Repeats::Exactly(3)))),
        Err(Error::Repetition(id("a")))
    );
    assert_eq!(set.len(), 2);
    assert_eq!(set.get(&id("a")).map(|found| found.repeats), Ok(Repeats::Exactly(1)));
    assert_eq!(
        set.get(&id("c")).map(|found| found.repeats),
        Err(Error::Find(FindError::Trigger(id("c"))))
    );
    assert_eq!(set.remove(&id("a")), Ok(()));
    assert_eq!(set.remove(&id("a")), Err(Error::Find(FindError::Trigger(id("a")))));
    assert_eq!(set.ids(), vec![id("b")]);
    assert!(set.contains(&id("b")));
    assert!(!set.contains(&id("a")));
}

#[test]
fn trigger_set_changes_repeats_through_the_function_given() {
    let mut set = TriggerSet::new();
    set.add(Trigger::new(id("a"), action(Repeats::Exactly(10)))).expect("adds");
    set.add(Trigger::new(id("b"), action(Repeats::Indefinitely))).expect("adds");
    assert_eq!(set.mod_repeats(&id("a"), |count| Ok(count * 2)), Ok(()));
    assert_eq!(set.get(&id("a")).map(|found| found.repeats), Ok(Repeats::Exactly(20)));
    assert_eq!(
        set.mod_repeats(&id("a"), |_| Err(MathError::Overflow)),
        Err(Error::Math(MathError::Overflow))
    );
    assert_eq!(set.get(&id("a")).map(|found| found.repeats), Ok(Repeats::Exactly(20)));
    assert_eq!(set.mod_repeats(&id("b"), |_| Err(MathError::Overflow)), Ok(()));
    assert_eq!(set.get(&id("b")).map(|found| found.repeats), Ok(Repeats::Indefinitely));
    assert_eq!(
        set.mod_repeats(&id("c"), |count| Ok(count)),
        Err(Error::Find(FindError::Trigger(id("c"))))
    );
    assert_eq!(set.ids(), vec![id("a"), id("b")]);
}

#[test]
fn value_map_clone_holds_the_same_entries() {
    let mut map = ValueMap::new();
    map.insert(Name::new("a"), Value::U32(1));
    map.insert(Name::new("b"), Value::Id(id("T")));
    let mut copy = map.clone();
    assert_eq!(copy.len(), 2);
    assert!(matches!(copy.get(&Name::new("a")), Some(Value::U32(1))));
    assert!(matches!(copy.get(&Name::new("b")), Some(Value::Id(found)) if *found == id("T")));
    copy.remove(&Name::new("a"));
    assert!(map.contains(&Name::new("a")));
}
