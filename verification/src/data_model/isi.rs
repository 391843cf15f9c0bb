//! Instructions on triggers: each one asks for one atomic change of the
//! world state.

use vstd::prelude::*;

use crate::data_model::name::TriggerId;
use crate::data_model::trigger::Trigger;

verus! {

/// Registers a trigger.
#[derive(Debug)]
pub struct Register {
    /// The trigger to register.
    pub object: Trigger,
}

/// Unregisters a trigger.
#[derive(Debug)]
pub struct Unregister {
    /// The trigger to take out.
    pub object_id: TriggerId,
}

/// Raises the repeat count of a trigger.
#[derive(Debug)]
pub struct Mint {
    /// By how much the count goes up.
    pub object: u32,
    /// The trigger whose count goes up.
    pub destination_id: TriggerId,
}

/// Lowers the repeat count of a trigger.
#[derive(Debug)]
pub struct Burn {
    /// By how much the count goes down.
    pub object: u32,
    /// The trigger whose count goes down.
    pub destination_id: TriggerId,
}

/// Asks for a run of a trigger.
#[derive(Debug)]
pub struct ExecuteTriggerBox {
    /// The trigger to run.
    pub trigger_id: TriggerId,
}

impl Register {
    /// The instruction that registers `object`.
    pub fn new(object: Trigger) -> (r: Register)
        ensures
            r.object == object,
    {
        Register { object }
    }
}

impl Unregister {
    /// The instruction that unregisters the trigger `object_id`.
    pub fn new(object_id: TriggerId) -> (r: Unregister)
        ensures
            r.object_id == object_id,
    {
        Unregister { object_id }
    }
}

impl Mint {
    /// The instruction that raises the repeat count of `destination_id` by
    /// `object`.
    pub fn new(object: u32, destination_id: TriggerId) -> (r: Mint)
        ensures
            r.object == object,
            r.destination_id == destination_id,
    {
        Mint { object, destination_id }
    }
}

impl Burn {
    /// The instruction that lowers the repeat count of `destination_id` by
    /// `object`.
    pub fn new(object: u32, destination_id: TriggerId) -> (r: Burn)
        ensures
            r.object == object,
            r.destination_id == destination_id,
    {
        Burn { object, destination_id }
    }
}

impl ExecuteTriggerBox {
    /// The instruction that asks for a run of `trigger_id`.
    pub fn new(trigger_id: TriggerId) -> (r: ExecuteTriggerBox)
        ensures
            r.trigger_id == trigger_id,
    {
        ExecuteTriggerBox { trigger_id }
    }
}

} // verus!
