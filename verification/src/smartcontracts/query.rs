//! The queries on triggers, each with the answer that it gives.

use vstd::prelude::*;
use vstd::string::StringExecFns;

use crate::data_model::name::{Name, TriggerId};
use crate::data_model::query::{
    Expression, FindAllActiveTriggerIds, FindTriggerById, FindTriggerKeyValueByIdAndKey, QueryBox,
};
use crate::data_model::trigger::{Trigger, TriggerView};
use crate::data_model::value::{lemma_list_view, list_view, Value, ValueView};
use crate::error::{
    EvaluationError, EvaluationErrorView, FindError, FindErrorView, QueryExecutionFailure,
    QueryErrorView,
};
use crate::smartcontracts::expression::{as_name, as_trigger_id, evaluation};
use crate::smartcontracts::{result_view, Context, ValidQuery};
use crate::wsv::{WorldStateView, WorldView};

verus! {

/// The failure to evaluate the expression that `what` names.
pub open spec fn evaluation_failure(what: Seq<char>, error: EvaluationErrorView) -> QueryErrorView {
    QueryErrorView::Evaluate("Failed to evaluate "@ + what + ". "@ + error.message())
}

/// The identifier that an expression of a query evaluates to, in a context
/// of its own that binds no name.
pub open spec fn evaluated_id(expression: Expression, world: WorldView) -> Result<
    Seq<char>,
    QueryErrorView,
>
    decreases expression, 1int,
{
    match evaluation(expression, Map::empty(), world) {
        Ok(value) => match as_trigger_id(value) {
            Ok(id) => Ok(id),
            Err(error) => Err(evaluation_failure("trigger id"@, error)),
        },
        Err(error) => Err(evaluation_failure("trigger id"@, error)),
    }
}

/// The key that an expression of a query evaluates to, in a context of its
/// own that binds no name.
pub open spec fn evaluated_key(expression: Expression, world: WorldView) -> Result<
    Seq<char>,
    QueryErrorView,
>
    decreases expression, 1int,
{
    match evaluation(expression, Map::empty(), world) {
        Ok(value) => match as_name(value) {
            Ok(name) => Ok(name),
            Err(error) => Err(evaluation_failure("key"@, error)),
        },
        Err(error) => Err(evaluation_failure("key"@, error)),
    }
}

/// The identifiers of a registry as one value.
pub open spec fn ids_value(order: Seq<Seq<char>>) -> ValueView {
    ValueView::List(Seq::new(order.len(), |i: int| ValueView::Id(order[i])))
}

/// The trigger that the query finds: the one registered under the
/// identifier that the query's expression evaluates to.
pub open spec fn trigger_by_id(query: FindTriggerById, world: WorldView) -> Result<
    TriggerView,
    QueryErrorView,
>
    decreases query, 0int,
{
    match evaluated_id(query.id, world) {
        Ok(id) => if world.triggers.contains(id) {
            Ok(TriggerView { id, action: world.triggers.actions[id] })
        } else {
            Err(QueryErrorView::Find(FindErrorView::Trigger(id)))
        },
        Err(failure) => Err(failure),
    }
}

/// The metadata value that the query finds: the identifier is evaluated and
/// looked up first, the key after that.
pub open spec fn key_value_by_id_and_key(
    query: FindTriggerKeyValueByIdAndKey,
    world: WorldView,
) -> Result<ValueView, QueryErrorView>
    decreases query, 0int,
{
    match evaluated_id(query.id, world) {
        Ok(id) => if world.triggers.contains(id) {
            match evaluated_key(query.key, world) {
                Ok(key) => if world.triggers.actions[id].metadata.contains_key(key) {
                    Ok(world.triggers.actions[id].metadata[key])
                } else {
                    Err(QueryErrorView::Find(FindErrorView::MetadataKey(key)))
                },
                Err(failure) => Err(failure),
            }
        } else {
            Err(QueryErrorView::Find(FindErrorView::Trigger(id)))
        },
        Err(failure) => Err(failure),
    }
}

/// What a query answers in a world, or why it fails.
pub open spec fn answer(query: QueryBox, world: WorldView) -> Result<ValueView, QueryErrorView>
    decreases query, 0int,
{
    match query {
        QueryBox::FindAllActiveTriggerIds(_) => Ok(ids_value(world.triggers.order)),
        QueryBox::FindTriggerById(query) => match trigger_by_id(query, world) {
            Ok(trigger) => Ok(ValueView::Trigger(trigger)),
            Err(failure) => Err(failure),
        },
        QueryBox::FindTriggerKeyValueByIdAndKey(query) => key_value_by_id_and_key(query, world),
    }
}

/// The failure to evaluate the expression that `what` names.
fn failed_to_evaluate(what: &str, error: &EvaluationError) -> (r: QueryExecutionFailure)
    ensures
        r@ == evaluation_failure(what@, error@),
{
    QueryExecutionFailure::Evaluate(
        String::from_str("Failed to evaluate ").concat(what).concat(". ").concat(
            error.message().as_str(),
        ),
    )
}

/// Evaluates the expression for a trigger's identifier against `wsv`, in a
/// context of its own.
fn evaluate_id(expression: &Expression, wsv: &WorldStateView) -> (r: Result<
    TriggerId,
    QueryExecutionFailure,
>)
    ensures
        result_view(r) == evaluated_id(*expression, wsv@),
    decreases *expression, 1int,
{
    let evaluated = match expression.evaluate(&Context::new(wsv)) {
        Ok(value) => value.into_trigger_id(),
        Err(error) => Err(error),
    };
    match evaluated {
        Ok(id) => Ok(id),
        Err(error) => Err(failed_to_evaluate("trigger id", &error)),
    }
}

/// Evaluates the expression for a metadata key against `wsv`, in a context
/// of its own.
fn evaluate_key(expression: &Expression, wsv: &WorldStateView) -> (r: Result<
    Name,
    QueryExecutionFailure,
>)
    ensures
        result_view(r) == evaluated_key(*expression, wsv@),
    decreases *expression, 1int,
{
    let evaluated = match expression.evaluate(&Context::new(wsv)) {
        Ok(value) => value.into_name(),
        Err(error) => Err(error),
    };
    match evaluated {
        Ok(name) => Ok(name),
        Err(error) => Err(failed_to_evaluate("key", &error)),
    }
}

impl ValidQuery for FindAllActiveTriggerIds {
    type Output = Vec<TriggerId>;

    open spec fn value_of(output: Vec<TriggerId>) -> ValueView {
        ValueView::List(Seq::new(output@.len(), |i: int| ValueView::Id(output@[i]@)))
    }

    open spec fn answer(self, world: WorldView) -> Result<ValueView, QueryErrorView> {
        answer(QueryBox::FindAllActiveTriggerIds(self), world)
    }

    fn into_value(output: Vec<TriggerId>) -> (r: Value) {
        let ghost all = output@;
        let mut values: Vec<Value> = Vec::new();
        for id in it: output
            invariant
                it.seq() == all,
                values@.len() == it.index(),
                forall|j: int|
                    0 <= j < it.index() ==> (#[trigger] values@[j])@ == ValueView::Id(all[j]@),
        {
            values.push(Value::Id(id));
        }
        proof {
            lemma_list_view(values@);
            assert(list_view(values@) =~= Seq::new(all.len(), |i: int| ValueView::Id(all[i]@)));
        }
        Value::List(values)
    }

    /// A snapshot of the identifiers of all triggers that are registered, in
    /// the order of registration.
    fn execute(&self, wsv: &WorldStateView) -> (r: Result<Vec<TriggerId>, QueryExecutionFailure>)
        ensures
            r matches Ok(ids) && ids@.len() == wsv@.triggers.order.len() && forall|i: int|
                0 <= i < ids@.len() ==> (#[trigger] ids@[i])@ == wsv@.triggers.order[i],
    {
        let ids = wsv.triggers().ids();
        proof {
            assert(Seq::new(ids@.len(), |i: int| ValueView::Id(ids@[i]@)) =~= Seq::new(
                wsv@.triggers.order.len(),
                |i: int| ValueView::Id(wsv@.triggers.order[i]),
            ));
        }
        Ok(ids)
    }

    fn execute_into_value(&self, wsv: &WorldStateView) -> (r: Result<Value, QueryExecutionFailure>)
        decreases *self, 1int,
    {
        match self.execute(wsv) {
            Ok(output) => Ok(Self::into_value(output)),
            Err(failure) => Err(failure),
        }
    }
}

impl ValidQuery for FindTriggerById {
    type Output = Trigger;

    open spec fn value_of(output: Trigger) -> ValueView {
        ValueView::Trigger(output@)
    }

    open spec fn answer(self, world: WorldView) -> Result<ValueView, QueryErrorView> {
        answer(QueryBox::FindTriggerById(self), world)
    }

    fn into_value(output: Trigger) -> (r: Value) {
        Value::Trigger(Box::new(output))
    }

    /// The trigger under the identifier that `id` evaluates to, whoever
    /// asks: nothing of it is held back.
    fn execute(&self, wsv: &WorldStateView) -> (r: Result<Trigger, QueryExecutionFailure>)
        ensures
            result_view(r) == trigger_by_id(*self, wsv@),
        decreases *self, 0int,
    {
        let id = match evaluate_id(&self.id, wsv) {
            Ok(id) => id,
            Err(failure) => {
                return Err(failure);
            },
        };
        match wsv.triggers().get(&id) {
            Ok(action) => Ok(Trigger { id, action }),
            Err(_) => Err(QueryExecutionFailure::Find(FindError::Trigger(id))),
        }
    }

    fn execute_into_value(&self, wsv: &WorldStateView) -> (r: Result<Value, QueryExecutionFailure>)
        decreases *self, 1int,
    {
        match self.execute(wsv) {
            Ok(output) => Ok(Self::into_value(output)),
            Err(failure) => Err(failure),
        }
    }
}

impl ValidQuery for FindTriggerKeyValueByIdAndKey {
    type Output = Value;

    open spec fn value_of(output: Value) -> ValueView {
        output@
    }

    open spec fn answer(self, world: WorldView) -> Result<ValueView, QueryErrorView> {
        answer(QueryBox::FindTriggerKeyValueByIdAndKey(self), world)
    }

    fn into_value(output: Value) -> (r: Value) {
        output
    }

    /// The value under the key that `key` evaluates to, in the metadata of
    /// the trigger under the identifier that `id` evaluates to.
    fn execute(&self, wsv: &WorldStateView) -> (r: Result<Value, QueryExecutionFailure>)
        ensures
            result_view(r) == key_value_by_id_and_key(*self, wsv@),
        decreases *self, 0int,
    {
        let id = match evaluate_id(&self.id, wsv) {
            Ok(id) => id,
            Err(failure) => {
                return Err(failure);
            },
        };
        let action = match wsv.triggers().get(&id) {
            Ok(action) => action,
            Err(_) => {
                return Err(QueryExecutionFailure::Find(FindError::Trigger(id)));
            },
        };
        let key = match evaluate_key(&self.key, wsv) {
            Ok(key) => key,
            Err(failure) => {
                return Err(failure);
            },
        };
        match action.metadata.get(&key) {
            Some(value) => Ok(value.clone()),
            None => Err(QueryExecutionFailure::Find(FindError::MetadataKey(key))),
        }
    }

    fn execute_into_value(&self, wsv: &WorldStateView) -> (r: Result<Value, QueryExecutionFailure>)
        decreases *self, 1int,
    {
        match self.execute(wsv) {
            Ok(output) => Ok(Self::into_value(output)),
            Err(failure) => Err(failure),
        }
    }
}

impl ValidQuery for QueryBox {
    type Output = Value;

    open spec fn value_of(output: Value) -> ValueView {
        output@
    }

    open spec fn answer(self, world: WorldView) -> Result<ValueView, QueryErrorView> {
        answer(self, world)
    }

    fn into_value(output: Value) -> (r: Value) {
        output
    }

    /// The answer of the query inside, as a value.
    fn execute(&self, wsv: &WorldStateView) -> (r: Result<Value, QueryExecutionFailure>)
        decreases *self, 0int,
    {
        match self {
            QueryBox::FindAllActiveTriggerIds(query) => query.execute_into_value(wsv),
            QueryBox::FindTriggerById(query) => query.execute_into_value(wsv),
            QueryBox::FindTriggerKeyValueByIdAndKey(query) => query.execute_into_value(wsv),
        }
    }

    fn execute_into_value(&self, wsv: &WorldStateView) -> (r: Result<Value, QueryExecutionFailure>)
        decreases *self, 1int,
    {
        match self.execute(wsv) {
            Ok(output) => Ok(Self::into_value(output)),
            Err(failure) => Err(failure),
        }
    }
}

} // verus!
