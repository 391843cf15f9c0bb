//! Queries on triggers, and the expressions that name what they look for.
//!
//! An identifier or a key in a query need not be written out: it may be any
//! expression, which is evaluated against the world state when the query
//! runs.

use vstd::prelude::*;

use crate::data_model::name::{Name, TriggerId};
use crate::data_model::value::Value;

verus! {

/// An expression: something that evaluates to a [`Value`].
#[derive(Debug)]
pub enum Expression {
    /// The value itself.
    Raw(Value),
    /// The value that the evaluation context binds to the name.
    ContextValue(Name),
    /// The answer of a query.
    Query(Box<QueryBox>),
}

/// Asks for the identifiers of all registered triggers.
#[derive(Debug)]
pub struct FindAllActiveTriggerIds;

/// Asks for a trigger by its identifier.
#[derive(Debug)]
pub struct FindTriggerById {
    /// Evaluates to the identifier of the trigger to find.
    pub id: Expression,
}

/// Asks for one value of a trigger's metadata.
#[derive(Debug)]
pub struct FindTriggerKeyValueByIdAndKey {
    /// Evaluates to the identifier of the trigger.
    pub id: Expression,
    /// Evaluates to the name of the metadata entry.
    pub key: Expression,
}

/// Any query.
#[derive(Debug)]
pub enum QueryBox {
    FindAllActiveTriggerIds(FindAllActiveTriggerIds),
    FindTriggerById(FindTriggerById),
    FindTriggerKeyValueByIdAndKey(FindTriggerKeyValueByIdAndKey),
}

impl Expression {
    /// The expression that evaluates to the identifier `id`.
    pub fn id(id: TriggerId) -> (r: Expression)
        ensures
            r == Expression::Raw(Value::Id(id)),
    {
        Expression::Raw(Value::Id(id))
    }

    /// The expression that evaluates to the name `name`.
    pub fn name(name: Name) -> (r: Expression)
        ensures
            r == Expression::Raw(Value::Name(name)),
    {
        Expression::Raw(Value::Name(name))
    }
}

impl FindTriggerById {
    /// The query for the trigger that `id` evaluates to.
    pub fn new(id: Expression) -> (r: FindTriggerById)
        ensures
            r.id == id,
    {
        FindTriggerById { id }
    }
}

impl FindTriggerKeyValueByIdAndKey {
    /// The query for the value under what `key` evaluates to, in the
    /// metadata of the trigger that `id` evaluates to.
    pub fn new(id: Expression, key: Expression) -> (r: FindTriggerKeyValueByIdAndKey)
        ensures
            r.id == id,
            r.key == key,
    {
        FindTriggerKeyValueByIdAndKey { id, key }
    }
}

} // verus!
