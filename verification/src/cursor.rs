//! Attribute cursors: counting, listing and reading attributes.

use vstd::prelude::*;

verus! {

/// Why a cursor operation failed.
#[derive(Debug, Clone, Copy, PartialEq, Eq, Structural)]
pub enum CursorError {
    /// The number of attributes could not be read.
    AttrsCount,
    /// The name of the attribute at this index could not be read.
    AttrName(usize),
    /// Whether the value is a derivation could not be read.
    IsDerivation,
    /// The string value could not be read.
    GetString,
    /// The boolean value could not be read.
    GetBool,
}

/// The number of attributes, from the C API's count, which is negative on
/// failure.
pub fn attrs_count_from_raw(count: i64) -> (r: Result<usize, CursorError>)
    ensures
        count < 0 ==> r == Err::<usize, CursorError>(CursorError::AttrsCount),
        count >= 0 ==> r == Ok::<usize, CursorError>(count as usize),
{
    if count < 0 {
        Err(CursorError::AttrsCount)
    } else {
        Ok(count as usize)
    }
}

/// A value read by the C API, kept when the call's status is zero and
/// replaced by `failure` otherwise.
pub fn status_value<T>(err: i32, value: T, failure: CursorError) -> (r: Result<T, CursorError>)
    ensures
        err == 0 ==> r == Ok::<T, CursorError>(value),
        err != 0 ==> r == Err::<T, CursorError>(failure),
{
    if err != 0 {
        Err(failure)
    } else {
        Ok(value)
    }
}

/// The reads of the names at indices `0..prefix.len()` all succeeded, with
/// the names in `prefix`.
pub open spec fn reads_succeeded<E, F: Fn(usize) -> Result<String, E>>(name_at: F, prefix: Seq<String>) -> bool {
    forall|k: int| #![trigger prefix[k]] 0 <= k < prefix.len() ==> call_ensures(name_at, (k as usize,), Ok::<String, E>(prefix[k]))
}

/// Collects the names at indices `0..count`, in order, reading each with
/// `name_at`, and stops at the first failure: an error is that of the
/// first read that failed, after all earlier reads succeeded.
pub fn collect_names<E, F: Fn(usize) -> Result<String, E>>(count: usize, name_at: F) -> (r: Result<Vec<String>, E>)
    requires
        forall|i: usize| i < count ==> call_requires(name_at, (i,)),
    ensures
        r matches Ok(names) ==> names@.len() == count && reads_succeeded(name_at, names@),
        r matches Err(e) ==> exists|prefix: Seq<String>| {
            &&& prefix.len() < count
            &&& reads_succeeded(name_at, prefix)
            &&& #[trigger] call_ensures(name_at, (prefix.len() as usize,), Err::<String, E>(e))
        },
{
    let mut names: Vec<String> = Vec::new();
    let mut i: usize = 0;
    while i < count
        invariant
            i <= count,
            names@.len() == i,
            forall|k: usize| k < count ==> call_requires(name_at, (k,)),
            reads_succeeded(name_at, names@),
        decreases count - i,
    {
        let outcome = name_at(i);
        match outcome {
            Ok(name) => {
                let ghost before = names@;
                names.push(name);
                assert forall|k: int| #![trigger names@[k]] 0 <= k < names@.len() implies call_ensures(name_at, (k as usize,), Ok::<String, E>(names@[k])) by {
                    if k < i {
                        assert(names@[k] == before[k]);
                    }
                }
            },
            Err(e) => {
                let r: Result<Vec<String>, E> = Err(e);
                assert(names@.len() as usize == i);
                assert(call_ensures(name_at, (names@.len() as usize,), Err::<String, E>(r->Err_0)));
                return r;
            },
        }
        i = i + 1;
    }
    Ok(names)
}

} // verus!
