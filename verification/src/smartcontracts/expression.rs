//! The evaluation of expressions.

use vstd::prelude::*;
use vstd::string::StringExecFns;

use crate::data_model::name::{Name, TriggerId};
use crate::data_model::query::Expression;
use crate::data_model::value::{Value, ValueView};
use crate::error::{EvaluationError, EvaluationErrorView};
use crate::smartcontracts::query::answer;
use crate::smartcontracts::{result_view, Context};
use crate::wsv::WorldView;

verus! {

/// What an expression evaluates to, with the names bound as `bindings` says
/// and queries put to `world`.
pub open spec fn evaluation(
    expression: Expression,
    bindings: Map<Seq<char>, ValueView>,
    world: WorldView,
) -> Result<ValueView, EvaluationErrorView>
    decreases expression, 0int,
{
    match expression {
        Expression::Raw(value) => Ok(value@),
        Expression::ContextValue(name) => if bindings.contains_key(name@) {
            Ok(bindings[name@])
        } else {
            Err(EvaluationErrorView::Find(name@))
        },
        Expression::Query(query) => match answer(*query, world) {
            Ok(value) => Ok(value),
            Err(failure) => Err(EvaluationErrorView::Query(failure)),
        },
    }
}

/// The identifier that a value is, if it is one.
pub open spec fn as_trigger_id(value: ValueView) -> Result<Seq<char>, EvaluationErrorView> {
    match value {
        ValueView::Id(id) => Ok(id),
        _ => Err(EvaluationErrorView::Conversion("TriggerId"@)),
    }
}

/// The name that a value is, if it is one.
pub open spec fn as_name(value: ValueView) -> Result<Seq<char>, EvaluationErrorView> {
    match value {
        ValueView::Name(name) => Ok(name),
        _ => Err(EvaluationErrorView::Conversion("Name"@)),
    }
}

impl Expression {
    /// Evaluates the expression in `context`. The world state is only read.
    pub fn evaluate(&self, context: &Context) -> (r: Result<Value, EvaluationError>)
        ensures
            result_view(r) == evaluation(*self, context@.values, context@.world),
        decreases *self, 0int,
    {
        match self {
            Expression::Raw(value) => Ok(value.clone()),
            Expression::ContextValue(name) => match context.get(name) {
                Some(value) => Ok(value.clone()),
                None => Err(EvaluationError::Find(name.clone())),
            },
            Expression::Query(query) => match context.query(query) {
                Ok(value) => Ok(value),
                Err(failure) => Err(EvaluationError::Query(failure)),
            },
        }
    }
}

impl Value {
    /// The identifier that the value is, if it is one.
    pub fn into_trigger_id(self) -> (r: Result<TriggerId, EvaluationError>)
        ensures
            result_view(r) == as_trigger_id(self@),
    {
        match self {
            Value::Id(id) => Ok(id),
            _ => Err(EvaluationError::Conversion(String::from_str("TriggerId"))),
        }
    }

    /// The name that the value is, if it is one.
    pub fn into_name(self) -> (r: Result<Name, EvaluationError>)
        ensures
            result_view(r) == as_name(self@),
    {
        match self {
            Value::Name(name) => Ok(name),
            _ => Err(EvaluationError::Conversion(String::from_str("Name"))),
        }
    }
}

} // verus!
