//! What instructions and queries do to the world state. Instructions are the
//! one way to change it; queries only read it.

pub mod expression;
pub mod isi;
pub mod query;

use vstd::prelude::*;

use crate::data_model::name::{AccountId, Name};
use crate::data_model::query::QueryBox;
use crate::data_model::value::{extended, Value, ValueMap, ValueView};
use crate::error::{Error, ErrorView, QueryExecutionFailure, QueryErrorView};
use crate::smartcontracts::query::answer;
use crate::wsv::{WorldStateView, WorldView};

verus! {

/// The content of a result: that of its value, or that of its error.
pub open spec fn result_view<T: View, E: View>(result: Result<T, E>) -> Result<T::V, E::V> {
    match result {
        Ok(value) => Ok(value@),
        Err(error) => Err(error@),
    }
}

/// An instruction: one atomic change of the world state.
pub trait Execute: Sized {
    /// What the instruction does to a world on behalf of `authority`: the
    /// world after it, or the error that it fails with.
    spec fn effect(self, authority: AccountId, world: WorldView) -> Result<WorldView, ErrorView>;

    /// Apply actions to `wsv` on behalf of `authority`. Either the whole
    /// effect is there afterwards, or the world is as it was and the call
    /// returns the error.
    fn execute(self, authority: AccountId, wsv: &mut WorldStateView) -> (r: Result<(), Error>)
        ensures
            match self.effect(authority, old(wsv)@) {
                Ok(world) => r is Ok && final(wsv)@ == world,
                Err(error) => r matches Err(e) && e@ == error && final(wsv)@ == old(wsv)@,
            },
    ;
}

/// A query: a question that the world state answers. A query cannot change
/// the world: it only borrows it to read.
pub trait ValidQuery: Sized {
    /// What the query answers with.
    type Output;

    /// An output in the form that all queries share.
    spec fn value_of(output: Self::Output) -> ValueView;

    /// What the query answers in a world, in the form that all queries
    /// share, or why it fails.
    spec fn answer(self, world: WorldView) -> Result<ValueView, QueryErrorView>;

    /// Puts an output into the form that all queries share.
    fn into_value(output: Self::Output) -> (r: Value)
        ensures
            r@ == Self::value_of(output),
    ;

    /// Execute query on the [`WorldStateView`].
    fn execute(&self, wsv: &WorldStateView) -> (r: Result<Self::Output, QueryExecutionFailure>)
        ensures
            match r {
                Ok(output) => self.answer(wsv@) == Ok::<ValueView, QueryErrorView>(
                    Self::value_of(output),
                ),
                Err(failure) => self.answer(wsv@) == Err::<ValueView, QueryErrorView>(failure@),
            },
    ;

    /// Executes query and maps it into value: `execute`, then `into_value`.
    // Every query writes these lines out. Verus does not yet take a provided
    // method here: one that calls `execute` would hide the bodies of the
    // spec functions from the implementations, and could not take part in
    // the recursion that runs through expressions.
    fn execute_into_value(&self, wsv: &WorldStateView) -> (r: Result<Value, QueryExecutionFailure>)
        ensures
            result_view(r) == self.answer(wsv@),
    ;
}

/// Context of expression evaluation: the values bound to names, and the
/// world state that embedded queries are put to.
#[derive(Debug)]
pub struct Context<'wsv> {
    values: ValueMap,
    wsv: &'wsv WorldStateView,
}

/// The mathematical content of a [`Context`].
pub struct ContextView {
    /// The value bound to each name.
    pub values: Map<Seq<char>, ValueView>,
    /// The world that queries are put to.
    pub world: WorldView,
}

impl<'wsv> View for Context<'wsv> {
    type V = ContextView;

    closed spec fn view(&self) -> ContextView {
        ContextView { values: self.values@, world: self.wsv@ }
    }
}

impl<'a> Context<'a> {
    /// Create new [`Self`]: no name is bound, and queries go to `wsv`.
    pub fn new(wsv: &'a WorldStateView) -> (r: Self)
        ensures
            r@ == (ContextView { values: Map::empty(), world: wsv@ }),
    {
        Self { values: ValueMap::new(), wsv }
    }

    /// The answer of the world state to `query`.
    pub fn query(&self, query: &QueryBox) -> (r: Result<Value, QueryExecutionFailure>)
        ensures
            result_view(r) == answer(*query, self@.world),
        decreases *query, 1int,
    {
        query.execute(self.wsv)
    }

    /// The value bound to `name`, if there is one.
    pub fn get(&self, name: &Name) -> (r: Option<&Value>)
        ensures
            match r {
                Some(value) => self@.values.contains_key(name@) && value@ == self@.values[name@],
                None => !self@.values.contains_key(name@),
            },
    {
        self.values.get(name)
    }

    /// Binds the names of `other` to their values, one by one in the order
    /// of `other`: a name bound before is bound anew.
    pub fn update(&mut self, other: Vec<(Name, Value)>)
        ensures
            final(self)@.values == extended(old(self)@.values, other@),
            final(self)@.world == old(self)@.world,
    {
        self.values.extend(other)
    }
}

impl<'wsv> Clone for Context<'wsv> {
    fn clone(&self) -> (r: Self)
        ensures
            r@ == self@,
    {
        Self { values: self.values.clone(), wsv: self.wsv }
    }
}

} // verus!
