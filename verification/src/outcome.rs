//! The model of a `Result`.

use vstd::prelude::*;

verus! {

/// A result with each side replaced by its model.
pub open spec fn of<T: DeepView, E: DeepView>(res: Result<T, E>) -> Result<T::V, E::V> {
    match res {
        Ok(v) => Ok(v.deep_view()),
        Err(e) => Err(e.deep_view()),
    }
}

} // verus!
