use vstd::prelude::*;

verus! {

/// A transparent wrapper, used to give a foreign value impls of the crate's own.
#[derive(Clone)]
pub struct W<T>(pub T);

} // verus!
