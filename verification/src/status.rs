//! Outcomes of C API calls that allocate an object.

use vstd::prelude::*;

verus! {

/// The outcome of a C API call that returns a new object or nothing: the
/// object when there is one; otherwise the error recorded in the call's
/// context if there is one, else `fallback`.
pub fn allocated<T, E>(object: Option<T>, context_error: Option<E>, fallback: E) -> (r: Result<T, E>)
    ensures
        object matches Some(o) ==> r == Ok::<T, E>(o),
        object is None ==> (context_error matches Some(e) ==> r == Err::<T, E>(e)),
        object is None && context_error is None ==> r == Err::<T, E>(fallback),
{
    match object {
        Some(o) => Ok(o),
        None => match context_error {
            Some(e) => Err(e),
            None => Err(fallback),
        },
    }
}

/// Why a structured-attributes accessor of a build environment fails.
#[derive(Debug, Clone, Copy, PartialEq, Eq, Structural)]
pub enum BuildEnvError {
    /// The environment has no structured attributes.
    NoStructuredAttrs,
}

/// The structured attributes of a build environment can be read only
/// when it has them.
pub fn require_structured_attrs(has_structured_attrs: bool) -> (r: Result<(), BuildEnvError>)
    ensures
        has_structured_attrs ==> r is Ok,
        !has_structured_attrs ==> r == Err::<(), BuildEnvError>(BuildEnvError::NoStructuredAttrs),
{
    if has_structured_attrs {
        Ok(())
    } else {
        Err(BuildEnvError::NoStructuredAttrs)
    }
}

} // verus!
