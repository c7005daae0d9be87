use vstd::prelude::*;

verus! {

/// The build mode a dependency set is derived for: development builds take
/// the development dependencies as well, production builds do not.
#[derive(Debug, Clone, Copy, PartialEq, Eq)]
pub enum Mode {
    Dev,
    Prod,
}

} // verus!
