use vstd::prelude::*;

verus! {

/// A trading-pair identifier such as `BTCUSDC`, compared by its exact text.
#[derive(Clone, Debug, PartialEq, Eq, PartialOrd, Ord, Hash)]
pub struct Symbol(pub String);

} // verus!
