//! The instructions on triggers, each with the change that it makes.

use vstd::prelude::*;

use crate::data_model::isi::{Burn, ExecuteTriggerBox, Mint, Register, Unregister};
use crate::data_model::name::{AccountId, TriggerId};
use crate::data_model::query::{Expression, FindTriggerById};
use crate::data_model::trigger::{
    ActionView, Repeats, TriggerEvent, TriggerEventView, TriggerView,
};
use crate::data_model::value::Value;
use crate::error::{Error, ErrorView, FindErrorView, MathError, QueryErrorView};
use crate::smartcontracts::query::{evaluated_id, trigger_by_id};
use crate::smartcontracts::Execute;
use crate::triggers::{TriggerSet, TriggerSetView};
use crate::wsv::{WorldStateView, WorldView};

verus! {

/// What a change of the registry comes to: the registry after it with the
/// event to emit, or the error.
pub type Step = Result<(TriggerSetView, TriggerEventView), ErrorView>;

/// The world after a step on its registry: where the step succeeds, the new
/// registry and the event are committed.
pub open spec fn apply(world: WorldView, step: Step) -> Result<WorldView, ErrorView> {
    match step {
        Ok((triggers, event)) => Ok(world.commit(triggers, event)),
        Err(error) => Err(error),
    }
}

/// Whether a change of the registry came to what `step` says: it reported
/// the step's event and left the step's registry, or it failed with the
/// step's error.
pub open spec fn realizes(step: Step, after: TriggerSetView, out: Result<TriggerEvent, Error>) -> bool {
    match step {
        Ok((triggers, event)) => out matches Ok(e) && e@ == event && after == triggers,
        Err(error) => out matches Err(e) && e@ == error,
    }
}

/// Registering `action` under `id`: refused where the action fires at one
/// fixed instant and has another repeat policy than exactly one run, and
/// where the identifier is taken.
pub open spec fn register_step(triggers: TriggerSetView, id: Seq<char>, action: ActionView) -> Step {
    if !action.is_consistent() {
        Err(ErrorView::Math(MathError::Overflow))
    } else if triggers.contains(id) {
        Err(ErrorView::Repetition(id))
    } else {
        Ok((triggers.add(id, action), TriggerEventView::Created(id)))
    }
}

/// Registering checks the rule on one-shot triggers first, and then asks the
/// registry to add the trigger.
impl Execute for Register {
    open spec fn effect(self, authority: AccountId, world: WorldView) -> Result<WorldView, ErrorView> {
        apply(world, register_step(world.triggers, self.object.id@, self.object.action@))
    }

    fn execute(self, authority: AccountId, wsv: &mut WorldStateView) -> (r: Result<(), Error>) {
        let new_trigger = self.object;
        if new_trigger.action.occurs_exactly_at_time() && !(new_trigger.action.repeats
            == Repeats::Exactly(1)) {
            return Err(Error::Math(MathError::Overflow));
        }
        let ghost step = register_step(wsv@.triggers, new_trigger.id@, new_trigger.action@);
        let add = |triggers: &mut TriggerSet| -> (out: Result<TriggerEvent, Error>)
            requires
                old(triggers)@ == wsv@.triggers,
            ensures
                realizes(step, final(triggers)@, out),
            {
                let trigger_id = new_trigger.id.clone();
                match triggers.add(new_trigger) {
                    Ok(_) => Ok(TriggerEvent::Created(trigger_id)),
                    Err(error) => Err(error),
                }
            };
        wsv.modify_triggers(add)
    }
}

/// Unregistering `id`: refused where no trigger stands under it.
pub open spec fn unregister_step(triggers: TriggerSetView, id: Seq<char>) -> Step {
    if triggers.contains(id) {
        Ok((triggers.remove(id), TriggerEventView::Deleted(id)))
    } else {
        Err(ErrorView::Find(FindErrorView::Trigger(id)))
    }
}

/// A repeat count raised by `amount`, unless that leaves the range.
pub open spec fn raised(count: u32, amount: u32) -> Result<u32, MathError> {
    if count + amount > u32::MAX {
        Err(MathError::Overflow)
    } else {
        Ok((count + amount) as u32)
    }
}

/// A repeat count lowered by `amount`, unless that goes below zero.
pub open spec fn lowered(count: u32, amount: u32) -> Result<u32, MathError> {
    if count < amount {
        Err(MathError::Overflow)
    } else {
        Ok((count - amount) as u32)
    }
}

/// The registry after the repeat count of the trigger `id`, which is
/// registered, becomes what `change` says. A trigger without a limit stays
/// as it is.
pub open spec fn repeats_step(
    triggers: TriggerSetView,
    id: Seq<char>,
    change: spec_fn(u32) -> Result<u32, MathError>,
    event: TriggerEventView,
) -> Step {
    match triggers.actions[id].repeats {
        Repeats::Indefinitely => Ok((triggers, event)),
        Repeats::Exactly(count) => match change(count) {
            Ok(new_count) => Ok((triggers.set_repeats(id, Repeats::Exactly(new_count)), event)),
            Err(error) => Err(ErrorView::Math(error)),
        },
    }
}

/// Raising the repeat count of `id` by `amount`: refused where no trigger
/// stands under `id`, where the trigger fires at one fixed instant, whatever
/// the amount, and where the count would leave its range.
pub open spec fn mint_step(triggers: TriggerSetView, id: Seq<char>, amount: u32) -> Step {
    if !triggers.contains(id) {
        Err(ErrorView::Find(FindErrorView::Trigger(id)))
    } else if triggers.actions[id].occurs_exactly_at_time() {
        Err(ErrorView::Math(MathError::Overflow))
    } else {
        repeats_step(triggers, id, |count: u32| raised(count, amount), TriggerEventView::Extended(id))
    }
}

/// Lowering the repeat count of `id` by `amount`: refused where no trigger
/// stands under `id` and where the count would go below zero.
pub open spec fn burn_step(triggers: TriggerSetView, id: Seq<char>, amount: u32) -> Step {
    if !triggers.contains(id) {
        Err(ErrorView::Find(FindErrorView::Trigger(id)))
    } else {
        repeats_step(
            triggers,
            id,
            |count: u32| lowered(count, amount),
            TriggerEventView::Shortened(id),
        )
    }
}

/// Unregistering asks the registry to take the trigger out.
impl Execute for Unregister {
    open spec fn effect(self, authority: AccountId, world: WorldView) -> Result<WorldView, ErrorView> {
        apply(world, unregister_step(world.triggers, self.object_id@))
    }

    fn execute(self, authority: AccountId, wsv: &mut WorldStateView) -> (r: Result<(), Error>) {
        let trigger = self.object_id.clone();
        let ghost step = unregister_step(wsv@.triggers, trigger@);
        let remove = |triggers: &mut TriggerSet| -> (out: Result<TriggerEvent, Error>)
            requires
                old(triggers)@ == wsv@.triggers,
            ensures
                realizes(step, final(triggers)@, out),
            {
                match triggers.remove(&trigger) {
                    Ok(_) => Ok(TriggerEvent::Deleted(self.object_id)),
                    Err(error) => Err(error),
                }
            };
        wsv.modify_triggers(remove)
    }
}

/// Minting looks the trigger up, refuses a one-shot trigger before any
/// arithmetic, and then adds to the repeat count with a check for overflow.
impl Execute for Mint {
    open spec fn effect(self, authority: AccountId, world: WorldView) -> Result<WorldView, ErrorView> {
        apply(world, mint_step(world.triggers, self.destination_id@, self.object))
    }

    fn execute(self, authority: AccountId, wsv: &mut WorldStateView) -> (r: Result<(), Error>) {
        let id = self.destination_id;
        let amount = self.object;
        let ghost step = mint_step(wsv@.triggers, id@, amount);
        let extend = |triggers: &mut TriggerSet| -> (out: Result<TriggerEvent, Error>)
            requires
                old(triggers)@ == wsv@.triggers,
            ensures
                realizes(step, final(triggers)@, out),
            {
                match triggers.get(&id) {
                    Ok(action) => {
                        if action.occurs_exactly_at_time() {
                            Err(Error::Math(MathError::Overflow))
                        } else {
                            let raise = |count: u32| -> (new_count: Result<u32, MathError>)
                                ensures
                                    new_count == raised(count, amount),
                                {
                                    match count.checked_add(amount) {
                                        Some(sum) => Ok(sum),
                                        None => Err(MathError::Overflow),
                                    }
                                };
                            match triggers.mod_repeats(&id, raise) {
                                Ok(_) => Ok(TriggerEvent::Extended(id)),
                                Err(error) => Err(error),
                            }
                        }
                    },
                    Err(error) => Err(error),
                }
            };
        wsv.modify_triggers(extend)
    }
}

/// Burning subtracts from the repeat count with a check for underflow. Unlike
/// minting it does not ask whether the trigger is a one-shot trigger.
impl Execute for Burn {
    open spec fn effect(self, authority: AccountId, world: WorldView) -> Result<WorldView, ErrorView> {
        apply(world, burn_step(world.triggers, self.destination_id@, self.object))
    }

    fn execute(self, authority: AccountId, wsv: &mut WorldStateView) -> (r: Result<(), Error>) {
        let trigger = self.destination_id;
        let amount = self.object;
        let ghost step = burn_step(wsv@.triggers, trigger@, amount);
        let shorten = |triggers: &mut TriggerSet| -> (out: Result<TriggerEvent, Error>)
            requires
                old(triggers)@ == wsv@.triggers,
            ensures
                realizes(step, final(triggers)@, out),
            {
                let lower = |count: u32| -> (new_count: Result<u32, MathError>)
                    ensures
                        new_count == lowered(count, amount),
                    {
                        match count.checked_sub(amount) {
                            Some(rest) => Ok(rest),
                            None => Err(MathError::Overflow),
                        }
                    };
                match triggers.mod_repeats(&trigger, lower) {
                    Ok(_) => Ok(TriggerEvent::Shortened(trigger)),
                    Err(error) => Err(error),
                }
            };
        wsv.modify_triggers(shorten)
    }
}

/// Asking for a run always succeeds: whether the trigger exists, and how its
/// run ends, is told later by a notification.
impl Execute for ExecuteTriggerBox {
    open spec fn effect(self, authority: AccountId, world: WorldView) -> Result<WorldView, ErrorView> {
        Ok(world.request(self.trigger_id@, authority@))
    }

    fn execute(self, authority: AccountId, wsv: &mut WorldStateView) -> (r: Result<(), Error>) {
        wsv.execute_trigger(self.trigger_id, authority);
        Ok(())
    }
}

/// A trigger that fires at one fixed instant is registered only with a
/// repeat policy of exactly one run. With any other policy the instruction
/// fails with an arithmetic error, whatever the world holds.
pub proof fn one_shot_registers_only_with_one_run(
    register: Register,
    authority: AccountId,
    world: WorldView,
)
    requires
        register.object.action@.occurs_exactly_at_time(),
    ensures
        register.effect(authority, world) is Ok ==> register.object.action.repeats
            == Repeats::Exactly(1),
        register.object.action.repeats != Repeats::Exactly(1) ==> register.effect(authority, world)
            == Err::<WorldView, ErrorView>(ErrorView::Math(MathError::Overflow)),
{
}

/// Every trigger that a successful registration puts into the registry obeys
/// the rule on one-shot triggers, and it stands there as it was given.
pub proof fn registered_trigger_is_consistent(
    register: Register,
    authority: AccountId,
    world: WorldView,
)
    ensures
        register.effect(authority, world) matches Ok(after) ==> {
            &&& !world.triggers.contains(register.object.id@)
            &&& after.triggers.contains(register.object.id@)
            &&& after.triggers.actions[register.object.id@] == register.object.action@
            &&& register.object.action@.is_consistent()
            &&& after.events == world.events.push(TriggerEventView::Created(register.object.id@))
        },
{
}

/// The repeat count of a registered trigger that fires at one fixed instant
/// cannot be raised: the instruction fails, whatever the amount, zero too.
pub proof fn mint_fails_on_one_shot_trigger(mint: Mint, authority: AccountId, world: WorldView)
    requires
        world.triggers.contains(mint.destination_id@),
        world.triggers.actions[mint.destination_id@].occurs_exactly_at_time(),
    ensures
        mint.effect(authority, world) == Err::<WorldView, ErrorView>(
            ErrorView::Math(MathError::Overflow),
        ),
{
}

/// Lowering a repeat count by an amount and raising it by the same amount,
/// where both succeed, leaves the registry as it was: the count does not
/// drift.
pub proof fn burn_then_mint_restores_registry(
    burn: Burn,
    mint: Mint,
    authority: AccountId,
    world: WorldView,
)
    requires
        burn.destination_id@ == mint.destination_id@,
        burn.object == mint.object,
        burn.effect(authority, world) is Ok,
        mint.effect(authority, burn.effect(authority, world)->Ok_0) is Ok,
    ensures
        mint.effect(authority, burn.effect(authority, world)->Ok_0)->Ok_0.triggers == world.triggers,
{
    let id = burn.destination_id@;
    let middle = burn.effect(authority, world)->Ok_0;
    let last = mint.effect(authority, middle)->Ok_0;
    assert(last.triggers.actions =~= world.triggers.actions);
}

/// Lowering the repeat count is not refused for a trigger that fires at one
/// fixed instant, as raising it is: such a trigger can be burnt down to no
/// run at all.
pub proof fn burn_reaches_one_shot_trigger(burn: Burn, authority: AccountId, world: WorldView)
    requires
        world.triggers.contains(burn.destination_id@),
        world.triggers.actions[burn.destination_id@].occurs_exactly_at_time(),
        world.triggers.actions[burn.destination_id@].repeats == Repeats::Exactly(1),
        burn.object == 1,
    ensures
        burn.effect(authority, world) matches Ok(after) && after.triggers.actions[burn.destination_id@].repeats
            == Repeats::Exactly(0),
{
}

/// A second registration under an identifier that is taken fails, and the
/// first registration stands as it was. The error is the duplicate error
/// where the second trigger obeys the rule on one-shot triggers.
pub proof fn register_twice_fails(
    first: Register,
    second: Register,
    authority: AccountId,
    world: WorldView,
)
    requires
        first.object.id@ == second.object.id@,
        first.effect(authority, world) is Ok,
    ensures
        second.effect(authority, first.effect(authority, world)->Ok_0) is Err,
        second.object.action@.is_consistent() ==> second.effect(
            authority,
            first.effect(authority, world)->Ok_0,
        ) == Err::<WorldView, ErrorView>(ErrorView::Repetition(second.object.id@)),
        first.effect(authority, world)->Ok_0.triggers.actions[first.object.id@]
            == first.object.action@,
{
}

/// Unregistering an identifier under which no trigger stands fails with a
/// not-found error.
pub proof fn unregister_unknown_fails(unregister: Unregister, authority: AccountId, world: WorldView)
    requires
        !world.triggers.contains(unregister.object_id@),
    ensures
        unregister.effect(authority, world) == Err::<WorldView, ErrorView>(
            ErrorView::Find(FindErrorView::Trigger(unregister.object_id@)),
        ),
{
}

/// Unregistering a trigger after it was registered succeeds and takes it out
/// of the registry, whose triggers are then those from before the registration.
pub proof fn unregister_after_register_removes(
    register: Register,
    unregister: Unregister,
    authority: AccountId,
    world: WorldView,
)
    requires
        register.object.id@ == unregister.object_id@,
        register.effect(authority, world) is Ok,
    ensures
        unregister.effect(authority, register.effect(authority, world)->Ok_0) matches Ok(after) && {
            &&& !after.triggers.contains(unregister.object_id@)
            &&& after.triggers.actions == world.triggers.actions
            &&& world.triggers.well_formed() ==> after.triggers == world.triggers
        },
{
    let id = unregister.object_id@;
    let middle = register.effect(authority, world)->Ok_0;
    let after = unregister.effect(authority, middle)->Ok_0;
    assert(after.triggers.actions =~= world.triggers.actions);
    if world.triggers.well_formed() {
        let order = world.triggers.order;
        assert(!order.contains(id)) by {
            assert(!order.to_set().contains(id));
        }
        order.push(id).index_of_first_ensures(id);
        assert(order.push(id)[order.len() as int] == id);
        assert(order.push(id).index_of(id) == order.len());
        assert(order.push(id).remove(order.len() as int) =~= order);
    }
}

/// After a trigger was registered and unregistered again, a query for it by
/// its identifier fails with a not-found error, however the query's
/// expression comes to the identifier.
pub proof fn find_after_unregister_fails(
    register: Register,
    unregister: Unregister,
    query: FindTriggerById,
    authority: AccountId,
    world: WorldView,
)
    requires
        register.object.id@ == unregister.object_id@,
        register.effect(authority, world) is Ok,
        unregister.effect(authority, register.effect(authority, world)->Ok_0) matches Ok(after)
            ==> evaluated_id(query.id, after) == Ok::<Seq<char>, QueryErrorView>(
            unregister.object_id@,
        ),
    ensures
        unregister.effect(authority, register.effect(authority, world)->Ok_0) matches Ok(after)
            && trigger_by_id(query, after) == Err::<TriggerView, QueryErrorView>(
            QueryErrorView::Find(FindErrorView::Trigger(unregister.object_id@)),
        ),
{
    unregister_after_register_removes(register, unregister, authority, world);
}

/// An expression that spells an identifier out evaluates to it in every
/// world.
pub proof fn literal_id_evaluates_to_itself(id: TriggerId, world: WorldView)
    ensures
        evaluated_id(Expression::Raw(Value::Id(id)), world) == Ok::<Seq<char>, QueryErrorView>(id@),
{
}

/// No instruction on triggers makes an identifier occur twice: a change
/// that succeeds on a registry whose parts agree leaves one whose parts
/// agree.
pub proof fn steps_keep_identifiers_unique(
    triggers: TriggerSetView,
    id: Seq<char>,
    action: ActionView,
    amount: u32,
)
    requires
        triggers.well_formed(),
    ensures
        register_step(triggers, id, action) matches Ok(after) ==> after.0.well_formed(),
        unregister_step(triggers, id) matches Ok(after) ==> after.0.well_formed(),
        mint_step(triggers, id, amount) matches Ok(after) ==> after.0.well_formed(),
        burn_step(triggers, id, amount) matches Ok(after) ==> after.0.well_formed(),
{
    let order = triggers.order;
    if let Ok(after) = register_step(triggers, id, action) {
        assert(!order.contains(id)) by {
            assert(!order.to_set().contains(id));
        }
        assert(order.push(id).to_set() =~= triggers.actions.dom().insert(id)) by {
            assert forall|key: Seq<char>| order.push(id).to_set().contains(key)
                <==> triggers.actions.dom().insert(id).contains(key) by {
                if order.push(id).contains(key) {
                    let i = choose|i: int| 0 <= i < order.push(id).len() && order.push(id)[i] == key;
                    if i < order.len() {
                        assert(order[i] == key);
                        assert(order.to_set().contains(key));
                    }
                }
                if triggers.actions.dom().insert(id).contains(key) {
                    if key == id {
                        assert(order.push(id)[order.len() as int] == key);
                    } else {
                        assert(order.to_set().contains(key));
                        let i = choose|i: int| 0 <= i < order.len() && order[i] == key;
                        assert(order.push(id)[i] == key);
                    }
                }
            }
        }
    }
    if let Ok(after) = unregister_step(triggers, id) {
        assert(order.to_set().contains(id));
        order.index_of_first_ensures(id);
        let at = order.index_of(id);
        let rest = order.remove(at);
        assert(forall|i: int| 0 <= i < at ==> #[trigger] rest[i] == order[i]);
        assert(forall|i: int| at <= i < rest.len() ==> #[trigger] rest[i] == order[i + 1]);
        assert(rest.to_set() =~= triggers.actions.dom().remove(id)) by {
            assert forall|key: Seq<char>| rest.to_set().contains(key)
                <==> triggers.actions.dom().remove(id).contains(key) by {
                if rest.contains(key) {
                    let i = choose|i: int| 0 <= i < rest.len() && rest[i] == key;
                    if i < at {
                        assert(order[i] == key);
                    } else {
                        assert(order[i + 1] == key);
                    }
                    assert(order.to_set().contains(key));
                }
                if triggers.actions.dom().remove(id).contains(key) {
                    assert(order.to_set().contains(key));
                    let i = choose|i: int| 0 <= i < order.len() && order[i] == key;
                    if i < at {
                        assert(rest[i] == key);
                    } else {
                        assert(rest[i - 1] == key);
                    }
                }
            }
        }
    }
    if triggers.contains(id) {
        assert(triggers.actions.dom().insert(id) =~= triggers.actions.dom());
    }
}

/// Registering, unregistering and raising a repeat count keep the rule on
/// one-shot triggers: where every registered trigger obeys it before, every
/// one does after.
pub proof fn steps_keep_one_shot_rule(
    triggers: TriggerSetView,
    id: Seq<char>,
    action: ActionView,
    amount: u32,
)
    requires
        triggers.is_consistent(),
    ensures
        register_step(triggers, id, action) matches Ok(after) ==> after.0.is_consistent(),
        unregister_step(triggers, id) matches Ok(after) ==> after.0.is_consistent(),
        mint_step(triggers, id, amount) matches Ok(after) ==> after.0.is_consistent(),
{
    if let Ok(after) = register_step(triggers, id, action) {
        assert forall|other: Seq<char>| after.0.contains(other) implies (
        #[trigger] after.0.actions[other]).is_consistent() by {
            if other != id {
                assert(triggers.actions[other].is_consistent());
            }
        }
    }
    if let Ok(after) = unregister_step(triggers, id) {
        assert forall|other: Seq<char>| after.0.contains(other) implies (
        #[trigger] after.0.actions[other]).is_consistent() by {
            assert(triggers.actions[other].is_consistent());
        }
    }
    if let Ok(after) = mint_step(triggers, id, amount) {
        assert forall|other: Seq<char>| after.0.contains(other) implies (
        #[trigger] after.0.actions[other]).is_consistent() by {
            assert(triggers.actions[other].is_consistent());
        }
    }
}

} // verus!
