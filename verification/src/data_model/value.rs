//! Values: what a metadata entry holds, what an expression evaluates to and
//! what a query answers with.

use vstd::prelude::*;

use crate::data_model::assoc::{
    assoc_map, distinct_keys, lemma_assoc_keys, lemma_assoc_push, lemma_assoc_remove,
    lemma_assoc_update, lemma_assoc_values,
};
use crate::data_model::name::{Name, TriggerId};
use crate::data_model::trigger::{trigger_view, Trigger, TriggerView};

verus! {

/// A value of the ledger, in the one form that expressions, queries and
/// metadata share.
#[derive(Debug)]
pub enum Value {
    Bool(bool),
    U32(u32),
    Text(String),
    Name(Name),
    /// The identifier of a trigger.
    Id(TriggerId),
    List(Vec<Value>),
    /// A trigger with its action.
    Trigger(Box<Trigger>),
}

/// A finite map from names to values. No name occurs twice.
#[derive(Debug)]
pub struct ValueMap {
    entries: Vec<(Name, Value)>,
}

/// The metadata of a trigger.
pub type Metadata = ValueMap;

/// The mathematical content of a [`Value`].
pub enum ValueView {
    Bool(bool),
    U32(u32),
    Text(Seq<char>),
    Name(Seq<char>),
    Id(Seq<char>),
    List(Seq<ValueView>),
    Trigger(TriggerView),
}

/// The content of a value.
pub open spec fn value_view(value: Value) -> ValueView
    decreases value,
{
    match value {
        Value::Bool(b) => ValueView::Bool(b),
        Value::U32(n) => ValueView::U32(n),
        Value::Text(text) => ValueView::Text(text@),
        Value::Name(name) => ValueView::Name(name@),
        Value::Id(id) => ValueView::Id(id@),
        Value::List(items) => ValueView::List(list_view(items@)),
        Value::Trigger(trigger) => ValueView::Trigger(trigger_view(*trigger)),
    }
}

/// The contents of the values of a sequence, in its order.
pub open spec fn list_view(values: Seq<Value>) -> Seq<ValueView>
    decreases values,
{
    if values.len() == 0 {
        Seq::empty()
    } else {
        list_view(values.drop_last()).push(value_view(values.last()))
    }
}

/// The map that a sequence of entries stands for. Of two entries under one
/// name the later one counts.
spec fn entries_view(entries: Seq<(Name, Value)>) -> Map<Seq<char>, ValueView>
    decreases entries,
{
    if entries.len() == 0 {
        Map::empty()
    } else {
        entries_view(entries.drop_last()).insert(entries.last().0@, value_view(entries.last().1))
    }
}

/// The content of a map of values.
pub closed spec fn map_view(map: ValueMap) -> Map<Seq<char>, ValueView>
    decreases map,
{
    entries_view(map.entries@)
}

impl View for Value {
    type V = ValueView;

    open spec fn view(&self) -> ValueView {
        value_view(*self)
    }
}

impl View for ValueMap {
    type V = Map<Seq<char>, ValueView>;

    open spec fn view(&self) -> Map<Seq<char>, ValueView> {
        map_view(*self)
    }
}

/// The map after the entries of a sequence are put into it one by one, in
/// the order of the sequence: an entry overwrites what stood under its name.
pub open spec fn extended(map: Map<Seq<char>, ValueView>, entries: Seq<(Name, Value)>) -> Map<
    Seq<char>,
    ValueView,
>
    decreases entries.len(),
{
    if entries.len() == 0 {
        map
    } else {
        extended(map, entries.drop_last()).insert(entries.last().0@, entries.last().1@)
    }
}

/// The pairs of name and content that a sequence of entries holds.
spec fn entry_pairs(entries: Seq<(Name, Value)>) -> Seq<(Seq<char>, ValueView)> {
    Seq::new(entries.len(), |i: int| (entries[i].0@, value_view(entries[i].1)))
}

/// `list_view` maps `value_view` over the sequence.
pub proof fn lemma_list_view(values: Seq<Value>)
    ensures
        list_view(values).len() == values.len(),
        forall|i: int| 0 <= i < values.len() ==> list_view(values)[i] == value_view(values[i]),
    decreases values.len(),
{
    if values.len() > 0 {
        lemma_list_view(values.drop_last());
    }
}

/// `entries_view` is the map of the entries' pairs.
proof fn lemma_entries_view(entries: Seq<(Name, Value)>)
    ensures
        entries_view(entries) == assoc_map(entry_pairs(entries)),
    decreases entries.len(),
{
    if entries.len() > 0 {
        lemma_entries_view(entries.drop_last());
        assert(entry_pairs(entries).drop_last() =~= entry_pairs(entries.drop_last()));
    }
}

impl ValueMap {
    #[verifier::type_invariant]
    spec fn well_formed(self) -> bool {
        distinct_keys(entry_pairs(self.entries@))
    }

    /// The empty map.
    pub fn new() -> (r: ValueMap)
        ensures
            r@ == Map::<Seq<char>, ValueView>::empty(),
    {
        ValueMap { entries: Vec::new() }
    }

    /// The number of entries.
    pub fn len(&self) -> (r: usize)
        ensures
            r == self@.len(),
            self@.dom().finite(),
    {
        proof {
            use_type_invariant(self);
            lemma_entries_view(self.entries@);
            lemma_assoc_values(entry_pairs(self.entries@));
            lemma_assoc_keys(entry_pairs(self.entries@));
        }
        self.entries.len()
    }

    /// The place of the entry under `name`, if there is one.
    fn position(&self, name: &Name) -> (r: Option<usize>)
        ensures
            match r {
                Some(i) => i < self.entries@.len() && self.entries@[i as int].0@ == name@,
                None => !self@.contains_key(name@),
            },
    {
        let mut i: usize = 0;
        while i < self.entries.len()
            invariant
                i <= self.entries@.len(),
                forall|j: int| 0 <= j < i ==> self.entries@[j].0@ != name@,
            decreases self.entries@.len() - i,
        {
            if self.entries[i].0 == *name {
                return Some(i);
            }
            i = i + 1;
        }
        proof {
            lemma_entries_view(self.entries@);
            lemma_assoc_keys(entry_pairs(self.entries@));
        }
        None
    }

    /// Whether there is an entry under `name`.
    pub fn contains(&self, name: &Name) -> (r: bool)
        ensures
            r == self@.contains_key(name@),
    {
        let found = self.position(name);
        proof {
            if let Some(i) = found {
                lemma_entries_view(self.entries@);
                lemma_assoc_keys(entry_pairs(self.entries@));
                assert(entry_pairs(self.entries@)[i as int].0 == name@);
            }
        }
        found.is_some()
    }

    /// The value under `name`, if there is one.
    pub fn get(&self, name: &Name) -> (r: Option<&Value>)
        ensures
            match r {
                Some(value) => self@.contains_key(name@) && value@ == self@[name@],
                None => !self@.contains_key(name@),
            },
    {
        match self.position(name) {
            Some(i) => {
                proof {
                    use_type_invariant(self);
                    lemma_entries_view(self.entries@);
                    lemma_assoc_keys(entry_pairs(self.entries@));
                    lemma_assoc_values(entry_pairs(self.entries@));
                    assert(entry_pairs(self.entries@)[i as int].0 == name@);
                }
                Some(&self.entries[i].1)
            },
            None => None,
        }
    }

    /// Puts `value` under `name` and hands back the value that stood there.
    pub fn insert(&mut self, name: Name, value: Value) -> (r: Option<Value>)
        ensures
            final(self)@ == old(self)@.insert(name@, value@),
            match r {
                Some(previous) => old(self)@.contains_key(name@) && previous@ == old(self)@[name@],
                None => !old(self)@.contains_key(name@),
            },
    {
        proof {
            use_type_invariant(&*self);
        }
        let found = self.position(&name);
        let mut entries: Vec<(Name, Value)> = Vec::new();
        core::mem::swap(&mut entries, &mut self.entries);
        let ghost before = entries@;
        proof {
            lemma_entries_view(before);
            lemma_assoc_keys(entry_pairs(before));
            lemma_assoc_values(entry_pairs(before));
        }
        match found {
            Some(i) => {
                let previous = entries.remove(i);
                entries.insert(i, (name, value));
                proof {
                    assert(entry_pairs(before)[i as int].0 == name@);
                    lemma_assoc_update(entry_pairs(before), i as int, value@);
                    assert(entry_pairs(entries@) =~= entry_pairs(before).update(
                        i as int,
                        (name@, value@),
                    ));
                    lemma_entries_view(entries@);
                }
                self.entries = entries;
                Some(previous.1)
            },
            None => {
                entries.push((name, value));
                proof {
                    lemma_assoc_push(entry_pairs(before), name@, value@);
                    assert(entry_pairs(entries@) =~= entry_pairs(before).push((name@, value@)));
                    lemma_entries_view(entries@);
                }
                self.entries = entries;
                None
            },
        }
    }

    /// Takes the entry under `name` out and hands back its value.
    pub fn remove(&mut self, name: &Name) -> (r: Option<Value>)
        ensures
            final(self)@ == old(self)@.remove(name@),
            match r {
                Some(previous) => old(self)@.contains_key(name@) && previous@ == old(self)@[name@],
                None => !old(self)@.contains_key(name@),
            },
    {
        proof {
            use_type_invariant(&*self);
        }
        match self.position(name) {
            Some(i) => {
                let mut entries: Vec<(Name, Value)> = Vec::new();
                core::mem::swap(&mut entries, &mut self.entries);
                let ghost before = entries@;
                let previous = entries.remove(i);
                proof {
                    lemma_entries_view(before);
                    lemma_assoc_keys(entry_pairs(before));
                    lemma_assoc_values(entry_pairs(before));
                    assert(entry_pairs(before)[i as int].0 == name@);
                    lemma_assoc_remove(entry_pairs(before), i as int);
                    assert(entry_pairs(entries@) =~= entry_pairs(before).remove(i as int));
                    lemma_entries_view(entries@);
                }
                self.entries = entries;
                Some(previous.1)
            },
            None => {
                proof {
                    assert(self@.remove(name@) =~= self@);
                }
                None
            },
        }
    }

    /// Puts the entries of `other` into the map one by one, in their order.
    pub fn extend(&mut self, other: Vec<(Name, Value)>)
        ensures
            final(self)@ == extended(old(self)@, other@),
    {
        let ghost start = self@;
        let ghost all = other@;
        for entry in it: other
            invariant
                it.seq() == all,
                self@ == extended(start, all.take(it.index() as int)),
        {
            proof {
                assert(all.take(it.index() + 1).drop_last() == all.take(it.index() as int));
            }
            let (name, value) = entry;
            self.insert(name, value);
        }
        proof {
            assert(all.take(all.len() as int) == all);
        }
    }
}

impl Clone for Value {
    fn clone(&self) -> (r: Value)
        ensures
            r@ == self@,
        decreases *self,
    {
        match self {
            Value::Bool(b) => Value::Bool(*b),
            Value::U32(n) => Value::U32(*n),
            Value::Text(text) => Value::Text(text.clone()),
            Value::Name(name) => Value::Name(name.clone()),
            Value::Id(id) => Value::Id(id.clone()),
            Value::List(items) => {
                let mut copies: Vec<Value> = Vec::new();
                let mut i: usize = 0;
                while i < items.len()
                    invariant
                        *self == Value::List(*items),
                        i <= items@.len(),
                        copies@.len() == i,
                        forall|j: int| 0 <= j < i ==> value_view(copies@[j]) == value_view(items@[j]),
                    decreases items@.len() - i,
                {
                    proof {
                        assert(decreases_to!(*self => self->List_0));
                    }
                    let copy = items[i].clone();
                    copies.push(copy);
                    i = i + 1;
                }
                proof {
                    lemma_list_view(items@);
                    lemma_list_view(copies@);
                    assert(list_view(copies@) =~= list_view(items@));
                }
                Value::List(copies)
            },
            Value::Trigger(trigger) => {
                let copy: Trigger = (**trigger).clone();
                Value::Trigger(Box::new(copy))
            },
        }
    }
}

impl Clone for ValueMap {
    fn clone(&self) -> (r: ValueMap)
        ensures
            r@ == self@,
        decreases *self,
    {
        proof {
            use_type_invariant(self);
        }
        let mut copies: Vec<(Name, Value)> = Vec::new();
        let mut i: usize = 0;
        while i < self.entries.len()
            invariant
                i <= self.entries@.len(),
                copies@.len() == i,
                forall|j: int|
                    0 <= j < i ==> copies@[j].0@ == self.entries@[j].0@ && value_view(copies@[j].1)
                        == value_view(self.entries@[j].1),
            decreases self.entries@.len() - i,
        {
            let name = self.entries[i].0.clone();
            let value = self.entries[i].1.clone();
            copies.push((name, value));
            i = i + 1;
        }
        proof {
            assert(entry_pairs(copies@) =~= entry_pairs(self.entries@));
            lemma_entries_view(copies@);
            lemma_entries_view(self.entries@);
        }
        ValueMap { entries: copies }
    }
}

} // verus!
