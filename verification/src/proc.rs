//! Results of the type inference that precedes validation and code generation.

use crate::arena::Handle;
use crate::back::ir::{Expression, Type};
use vstd::prelude::*;

verus! {

/// A failure to work out the type of an expression, with its description.
#[derive(Clone, Debug, PartialEq, Eq)]
pub struct ResolveError {
    pub message: String,
}


/// The types of the expressions of a function, as type inference found
/// them: one entry per expression, in arena order.
pub struct Typifier {
    pub resolutions: Vec<Result<Handle<Type>, ResolveError>>,
}

impl Typifier {
    /// The type found for the expression `expr`, or why none was found.
    pub fn resolve(&self, expr: Handle<Expression>) -> (r: Result<Handle<Type>, ResolveError>)
        requires
            expr.index < self.resolutions@.len(),
        ensures
            r == self.resolutions@[expr.index as int],
    {
        match &self.resolutions[expr.index] {
            Ok(handle) => Ok(*handle),
            Err(error) => Err(ResolveError { message: error.message.clone() }),
        }
    }
}

} // verus!
