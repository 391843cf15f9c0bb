//! The trigger registry: every registered trigger under its identifier, in
//! the order of registration. The registry alone owns the trigger records;
//! whoever wants one changed asks the registry.

use vstd::prelude::*;

use crate::data_model::assoc::{
    assoc_keys, assoc_map, distinct_keys, lemma_assoc_keys, lemma_assoc_order, lemma_assoc_push,
    lemma_assoc_remove, lemma_assoc_update, lemma_assoc_values,
};
use crate::data_model::name::TriggerId;
use crate::data_model::trigger::{Action, ActionView, Repeats, Trigger};
use crate::error::{Error, ErrorView, FindError, FindErrorView, MathError};

verus! {

/// The registered triggers. No identifier occurs twice.
#[derive(Debug)]
pub struct TriggerSet {
    entries: Vec<Trigger>,
}

/// The mathematical content of a [`TriggerSet`].
pub struct TriggerSetView {
    /// The action of each registered trigger, under the trigger's identifier.
    pub actions: Map<Seq<char>, ActionView>,
    /// The identifiers of the registered triggers, in the order of
    /// registration.
    pub order: Seq<Seq<char>>,
}

impl TriggerSetView {
    /// The registry without a trigger.
    pub open spec fn empty() -> TriggerSetView {
        TriggerSetView { actions: Map::empty(), order: Seq::empty() }
    }

    /// Whether the two parts speak of the same triggers, each once.
    pub open spec fn well_formed(self) -> bool {
        &&& self.order.no_duplicates()
        &&& self.order.to_set() == self.actions.dom()
    }

    /// Whether every registered trigger obeys the rule on one-shot triggers.
    pub open spec fn is_consistent(self) -> bool {
        forall|id: Seq<char>| self.contains(id) ==> (#[trigger] self.actions[id]).is_consistent()
    }

    /// Whether a trigger is registered under `id`.
    pub open spec fn contains(self, id: Seq<char>) -> bool {
        self.actions.contains_key(id)
    }

    /// The registry with one more trigger, registered last.
    pub open spec fn add(self, id: Seq<char>, action: ActionView) -> TriggerSetView {
        TriggerSetView { actions: self.actions.insert(id, action), order: self.order.push(id) }
    }

    /// The registry without the trigger `id`.
    pub open spec fn remove(self, id: Seq<char>) -> TriggerSetView {
        TriggerSetView {
            actions: self.actions.remove(id),
            order: self.order.remove(self.order.index_of(id)),
        }
    }

    /// The registry with another repeat policy for the trigger `id`.
    pub open spec fn set_repeats(self, id: Seq<char>, repeats: Repeats) -> TriggerSetView {
        TriggerSetView {
            actions: self.actions.insert(id, self.actions[id].with_repeats(repeats)),
            order: self.order,
        }
    }
}

/// The pairs of identifier and action that a sequence of triggers holds.
spec fn trigger_pairs(entries: Seq<Trigger>) -> Seq<(Seq<char>, ActionView)> {
    Seq::new(entries.len(), |i: int| (entries[i].id@, entries[i].action@))
}

impl View for TriggerSet {
    type V = TriggerSetView;

    closed spec fn view(&self) -> TriggerSetView {
        TriggerSetView {
            actions: assoc_map(trigger_pairs(self.entries@)),
            order: assoc_keys(trigger_pairs(self.entries@)),
        }
    }
}

impl TriggerSet {
    #[verifier::type_invariant]
    spec fn well_formed(self) -> bool {
        distinct_keys(trigger_pairs(self.entries@))
    }

    /// The registry without a trigger.
    pub fn new() -> (r: TriggerSet)
        ensures
            r@ == TriggerSetView::empty(),
    {
        let r = TriggerSet { entries: Vec::new() };
        assert(r@.order =~= Seq::<Seq<char>>::empty());
        r
    }

    /// The number of registered triggers.
    pub fn len(&self) -> (r: usize)
        ensures
            r == self@.order.len(),
            r == self@.actions.len(),
            self@.well_formed(),
    {
        proof {
            use_type_invariant(self);
            lemma_assoc_values(trigger_pairs(self.entries@));
            lemma_assoc_order(trigger_pairs(self.entries@));
        }
        self.entries.len()
    }

    /// The place of the trigger `id`, if it is registered.
    fn position(&self, id: &TriggerId) -> (r: Option<usize>)
        ensures
            match r {
                Some(i) => {
                    &&& i < self.entries@.len()
                    &&& self.entries@[i as int].id@ == id@
                    &&& self@.contains(id@)
                    &&& self@.actions[id@] == self.entries@[i as int].action@
                },
                None => !self@.contains(id@),
            },
    {
        let mut i: usize = 0;
        while i < self.entries.len()
            invariant
                i <= self.entries@.len(),
                forall|j: int| 0 <= j < i ==> self.entries@[j].id@ != id@,
            decreases self.entries@.len() - i,
        {
            if self.entries[i].id == *id {
                proof {
                    use_type_invariant(self);
                    lemma_assoc_keys(trigger_pairs(self.entries@));
                    lemma_assoc_values(trigger_pairs(self.entries@));
                    assert(trigger_pairs(self.entries@)[i as int].0 == id@);
                }
                return Some(i);
            }
            i = i + 1;
        }
        proof {
            lemma_assoc_keys(trigger_pairs(self.entries@));
        }
        None
    }

    /// Whether a trigger is registered under `id`.
    pub fn contains(&self, id: &TriggerId) -> (r: bool)
        ensures
            r == self@.contains(id@),
    {
        self.position(id).is_some()
    }

    /// The action of the trigger `id`.
    pub fn get(&self, id: &TriggerId) -> (r: Result<Action, Error>)
        ensures
            match r {
                Ok(action) => self@.contains(id@) && action@ == self@.actions[id@],
                Err(error) => !self@.contains(id@) && error@ == ErrorView::Find(
                    FindErrorView::Trigger(id@),
                ),
            },
    {
        match self.position(id) {
            Some(i) => Ok(self.entries[i].action.clone()),
            None => Err(Error::Find(FindError::Trigger(id.clone()))),
        }
    }

    /// Registers `trigger`, unless its identifier is taken.
    pub fn add(&mut self, trigger: Trigger) -> (r: Result<(), Error>)
        ensures
            match r {
                Ok(_) => {
                    &&& !old(self)@.contains(trigger.id@)
                    &&& final(self)@ == old(self)@.add(trigger.id@, trigger.action@)
                },
                Err(error) => {
                    &&& old(self)@.contains(trigger.id@)
                    &&& error@ == ErrorView::Repetition(trigger.id@)
                    &&& final(self)@ == old(self)@
                },
            },
    {
        proof {
            use_type_invariant(&*self);
        }
        if self.contains(&trigger.id) {
            return Err(Error::Repetition(trigger.id));
        }
        let mut entries: Vec<Trigger> = Vec::new();
        core::mem::swap(&mut entries, &mut self.entries);
        proof {
            lemma_assoc_push(trigger_pairs(entries@), trigger.id@, trigger.action@);
            assert(trigger_pairs(entries@.push(trigger)) =~= trigger_pairs(entries@).push(
                (trigger.id@, trigger.action@),
            ));
        }
        entries.push(trigger);
        self.entries = entries;
        Ok(())
    }

    /// Takes the trigger `id` out of the registry.
    pub fn remove(&mut self, id: &TriggerId) -> (r: Result<(), Error>)
        ensures
            match r {
                Ok(_) => old(self)@.contains(id@) && final(self)@ == old(self)@.remove(id@),
                Err(error) => {
                    &&& !old(self)@.contains(id@)
                    &&& error@ == ErrorView::Find(FindErrorView::Trigger(id@))
                    &&& final(self)@ == old(self)@
                },
            },
    {
        proof {
            use_type_invariant(&*self);
        }
        match self.position(id) {
            Some(i) => {
                let mut entries: Vec<Trigger> = Vec::new();
                core::mem::swap(&mut entries, &mut self.entries);
                proof {
                    let pairs = trigger_pairs(entries@);
                    lemma_assoc_remove(pairs, i as int);
                    lemma_assoc_order(pairs);
                    assert(trigger_pairs(entries@.remove(i as int)) =~= pairs.remove(i as int));
                    assert(assoc_keys(pairs)[i as int] == id@);
                    assoc_keys(pairs).index_of_first_ensures(id@);
                    assert(assoc_keys(pairs).index_of(id@) == i);
                }
                let _ = entries.remove(i);
                self.entries = entries;
                Ok(())
            },
            None => Err(Error::Find(FindError::Trigger(id.clone()))),
        }
    }

    /// The identifiers of all registered triggers, in the order of
    /// registration.
    pub fn ids(&self) -> (r: Vec<TriggerId>)
        ensures
            r@.len() == self@.order.len(),
            forall|i: int| 0 <= i < r@.len() ==> (#[trigger] r@[i])@ == self@.order[i],
            self@.well_formed(),
    {
        proof {
            use_type_invariant(self);
            lemma_assoc_order(trigger_pairs(self.entries@));
        }
        let mut ids: Vec<TriggerId> = Vec::new();
        let mut i: usize = 0;
        while i < self.entries.len()
            invariant
                i <= self.entries@.len(),
                ids@.len() == i,
                forall|j: int| 0 <= j < i ==> (#[trigger] ids@[j])@ == self.entries@[j].id@,
            decreases self.entries@.len() - i,
        {
            ids.push(self.entries[i].id.clone());
            i = i + 1;
        }
        ids
    }

    /// Changes the repeat count of the trigger `id` to what `f` makes of it.
    /// A trigger without a limit stays as it is. Where `f` fails, so does
    /// the call, and the registry stays as it was.
    pub fn mod_repeats<F: Fn(u32) -> Result<u32, MathError>>(&mut self, id: &TriggerId, f: F) -> (r:
        Result<(), Error>)
        requires
            forall|count: u32|
                old(self)@.contains(id@) && old(self)@.actions[id@].repeats == Repeats::Exactly(
                    count,
                ) ==> f.requires((count,)),
        ensures
            !old(self)@.contains(id@) ==> {
                &&& r matches Err(error)
                &&& error@ == ErrorView::Find(FindErrorView::Trigger(id@))
                &&& final(self)@ == old(self)@
            },
            old(self)@.contains(id@) ==> match old(self)@.actions[id@].repeats {
                Repeats::Indefinitely => r is Ok && final(self)@ == old(self)@,
                Repeats::Exactly(count) => exists|out: Result<u32, MathError>|
                    {
                        &&& #[trigger] f.ensures((count,), out)
                        &&& match out {
                            Ok(new_count) => {
                                &&& r is Ok
                                &&& final(self)@ == old(self)@.set_repeats(
                                    id@,
                                    Repeats::Exactly(new_count),
                                )
                            },
                            Err(failure) => {
                                &&& r matches Err(error)
                                &&& error@ == ErrorView::Math(failure)
                                &&& final(self)@ == old(self)@
                            },
                        }
                    },
            },
    {
        proof {
            use_type_invariant(&*self);
        }
        let i = match self.position(id) {
            Some(i) => i,
            None => {
                return Err(Error::Find(FindError::Trigger(id.clone())));
            },
        };
        match self.entries[i].action.repeats {
            Repeats::Indefinitely => Ok(()),
            Repeats::Exactly(count) => {
                match f(count) {
                    Ok(new_count) => {
                        let mut entries: Vec<Trigger> = Vec::new();
                        core::mem::swap(&mut entries, &mut self.entries);
                        let ghost before = entries@;
                        let mut trigger = entries.remove(i);
                        trigger.action.repeats = Repeats::Exactly(new_count);
                        proof {
                            let pairs = trigger_pairs(before);
                            lemma_assoc_update(pairs, i as int, trigger.action@);
                            assert(trigger_pairs(before.remove(i as int).insert(i as int, trigger))
                                =~= pairs.update(i as int, (pairs[i as int].0, trigger.action@)));
                        }
                        entries.insert(i, trigger);
                        self.entries = entries;
                        Ok(())
                    },
                    Err(failure) => Err(Error::Math(failure)),
                }
            },
        }
    }
}

impl Clone for TriggerSet {
    fn clone(&self) -> (r: TriggerSet)
        ensures
            r@ == self@,
    {
        proof {
            use_type_invariant(self);
        }
        let mut copies: Vec<Trigger> = Vec::new();
        let mut i: usize = 0;
        while i < self.entries.len()
            invariant
                i <= self.entries@.len(),
                copies@.len() == i,
                forall|j: int| 0 <= j < i ==> (#[trigger] copies@[j])@ == self.entries@[j]@,
            decreases self.entries@.len() - i,
        {
            copies.push(self.entries[i].clone());
            i = i + 1;
        }
        proof {
            assert(trigger_pairs(copies@) =~= trigger_pairs(self.entries@));
        }
        TriggerSet { entries: copies }
    }
}

} // verus!
