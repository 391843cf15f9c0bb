//! The failures of instructions, of expression evaluation and of queries.
//! None of them is fatal: each is handed to the caller, and a failed
//! instruction leaves the world as it found it.

use vstd::prelude::*;
use vstd::string::StringExecFns;

use crate::data_model::name::{Name, TriggerId};

verus! {

/// A failure of checked arithmetic on a repeat count. By convention a
/// schedule that breaks the rule on one-shot triggers is reported as an
/// overflow too.
#[derive(Clone, Copy, Debug, PartialEq, Eq, Structural)]
pub enum MathError {
    /// The result lies outside the range of the count.
    Overflow,
}

/// Something looked up that is not there.
#[derive(Debug, PartialEq, Eq)]
pub enum FindError {
    /// No trigger is registered under the identifier.
    Trigger(TriggerId),
    /// The metadata holds no entry under the name.
    MetadataKey(Name),
}

/// Why an instruction failed.
#[derive(Debug, PartialEq, Eq)]
pub enum Error {
    Math(MathError),
    Find(FindError),
    /// A trigger is registered under the identifier already.
    Repetition(TriggerId),
}

/// Why a query failed.
#[derive(Debug, PartialEq, Eq)]
pub enum QueryExecutionFailure {
    /// An expression of the query could not be evaluated. The text says
    /// which one, and why.
    Evaluate(String),
    Find(FindError),
}

/// Why an expression could not be evaluated.
#[derive(Debug, PartialEq, Eq)]
pub enum EvaluationError {
    /// The context binds no value to the name.
    Find(Name),
    /// The value is not of the type asked for, which the text names.
    Conversion(String),
    /// A query inside the expression failed.
    Query(QueryExecutionFailure),
}

/// The mathematical content of a [`FindError`].
pub enum FindErrorView {
    Trigger(Seq<char>),
    MetadataKey(Seq<char>),
}

/// The mathematical content of an [`Error`].
pub enum ErrorView {
    Math(MathError),
    Find(FindErrorView),
    Repetition(Seq<char>),
}

/// The mathematical content of a [`QueryExecutionFailure`].
pub enum QueryErrorView {
    Evaluate(Seq<char>),
    Find(FindErrorView),
}

/// The mathematical content of an [`EvaluationError`].
pub enum EvaluationErrorView {
    Find(Seq<char>),
    Conversion(Seq<char>),
    Query(QueryErrorView),
}

impl View for FindError {
    type V = FindErrorView;

    open spec fn view(&self) -> FindErrorView {
        match *self {
            FindError::Trigger(id) => FindErrorView::Trigger(id@),
            FindError::MetadataKey(name) => FindErrorView::MetadataKey(name@),
        }
    }
}

impl View for Error {
    type V = ErrorView;

    open spec fn view(&self) -> ErrorView {
        match *self {
            Error::Math(error) => ErrorView::Math(error),
            Error::Find(error) => ErrorView::Find(error@),
            Error::Repetition(id) => ErrorView::Repetition(id@),
        }
    }
}

impl View for QueryExecutionFailure {
    type V = QueryErrorView;

    open spec fn view(&self) -> QueryErrorView {
        match *self {
            QueryExecutionFailure::Evaluate(text) => QueryErrorView::Evaluate(text@),
            QueryExecutionFailure::Find(error) => QueryErrorView::Find(error@),
        }
    }
}

impl View for EvaluationError {
    type V = EvaluationErrorView;

    open spec fn view(&self) -> EvaluationErrorView {
        match *self {
            EvaluationError::Find(name) => EvaluationErrorView::Find(name@),
            EvaluationError::Conversion(text) => EvaluationErrorView::Conversion(text@),
            EvaluationError::Query(failure) => EvaluationErrorView::Query(failure@),
        }
    }
}

impl FindErrorView {
    /// The failure in words.
    pub open spec fn message(self) -> Seq<char> {
        match self {
            FindErrorView::Trigger(id) => "Trigger with id `"@ + id + "` not found"@,
            FindErrorView::MetadataKey(name) => "Metadata key `"@ + name + "` not found"@,
        }
    }
}

impl MathError {
    /// The failure in words.
    pub open spec fn spec_message(self) -> Seq<char> {
        match self {
            MathError::Overflow => "Overflow occurred"@,
        }
    }

    /// The failure in words.
    pub fn message(&self) -> (r: String)
        ensures
            r@ == self.spec_message(),
    {
        match self {
            MathError::Overflow => "Overflow occurred".to_owned(),
        }
    }
}

impl ErrorView {
    /// The failure in words.
    pub open spec fn message(self) -> Seq<char> {
        match self {
            ErrorView::Math(error) => "Math error. "@ + error.spec_message(),
            ErrorView::Find(error) => error.message(),
            ErrorView::Repetition(id) => "Trigger with id `"@ + id + "` is registered already"@,
        }
    }
}

impl QueryErrorView {
    /// The failure in words.
    pub open spec fn message(self) -> Seq<char> {
        match self {
            QueryErrorView::Evaluate(text) => "Evaluation failed. "@ + text,
            QueryErrorView::Find(error) => error.message(),
        }
    }
}

impl EvaluationErrorView {
    /// The failure in words.
    pub open spec fn message(self) -> Seq<char> {
        match self {
            EvaluationErrorView::Find(name) => "Value with name `"@ + name
                + "` not found in context"@,
            EvaluationErrorView::Conversion(text) => "Expected a value of type "@ + text,
            EvaluationErrorView::Query(failure) => failure.message(),
        }
    }
}

impl FindError {
    /// The failure in words.
    pub fn message(&self) -> (r: String)
        ensures
            r@ == self@.message(),
    {
        match self {
            FindError::Trigger(id) => "Trigger with id `".to_owned().concat(
                id.name().as_str(),
            ).concat("` not found"),
            FindError::MetadataKey(name) => "Metadata key `".to_owned().concat(
                name.as_str(),
            ).concat("` not found"),
        }
    }
}

impl Error {
    /// The failure in words.
    pub fn message(&self) -> (r: String)
        ensures
            r@ == self@.message(),
    {
        match self {
            Error::Math(error) => "Math error. ".to_owned().concat(error.message().as_str()),
            Error::Find(error) => error.message(),
            Error::Repetition(id) => "Trigger with id `".to_owned().concat(
                id.name().as_str(),
            ).concat("` is registered already"),
        }
    }
}

impl QueryExecutionFailure {
    /// The failure in words.
    pub fn message(&self) -> (r: String)
        ensures
            r@ == self@.message(),
    {
        match self {
            QueryExecutionFailure::Evaluate(text) => "Evaluation failed. ".to_owned().concat(
                text.as_str(),
            ),
            QueryExecutionFailure::Find(error) => error.message(),
        }
    }
}

impl EvaluationError {
    /// The failure in words.
    pub fn message(&self) -> (r: String)
        ensures
            r@ == self@.message(),
    {
        match self {
            EvaluationError::Find(name) => "Value with name `".to_owned().concat(
                name.as_str(),
            ).concat("` not found in context"),
            EvaluationError::Conversion(text) => "Expected a value of type ".to_owned().concat(
                text.as_str(),
            ),
            EvaluationError::Query(failure) => failure.message(),
        }
    }
}

} // verus!
