//! Results and options by the views of what they hold.
use vstd::prelude::*;

verus! {

/// A result, its value and its error taken by their views.
pub open spec fn outcome<T: View, E: View>(result: Result<T, E>) -> Result<T::V, E::V> {
    match result {
        Ok(value) => Ok(value@),
        Err(error) => Err(error@),
    }
}

/// An option, its value taken by its view.
pub open spec fn optional<T: View>(option: Option<T>) -> Option<T::V> {
    match option {
        Some(value) => Some(value@),
        None => None,
    }
}

/// Both results are values, or both are the same error.
pub open spec fn faults_agree<A, B, E>(a: Result<A, E>, b: Result<B, E>) -> bool {
    match a {
        Ok(_) => b is Ok,
        Err(error) => b == Err::<B, E>(error),
    }
}

} // verus!
