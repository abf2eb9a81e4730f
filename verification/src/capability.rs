use vstd::prelude::*;
use crate::errors::InvocationError;

verus! {

/// The minimal contract a plugin-exposed function must satisfy: it can be
/// invoked with a sequence of numeric arguments and may describe itself.
///
/// The framework is polymorphic over every implementation. It performs no
/// argument validation of its own and never inspects or transforms the
/// numbers it passes through; each callable alone checks its arity and
/// decides its outcome.
pub trait Function {
    fn call(&self, args: &[i64]) -> Result<i64, InvocationError>;

    fn help(&self) -> Option<&str> {
        None
    }
}

} // verus!
