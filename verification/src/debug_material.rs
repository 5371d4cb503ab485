use vstd::prelude::*;

verus! {

/// Names the debug material under which a renderer draws the simulated
/// shapes. The simulation itself never looks at it: it carries no state, and a
/// host that draws nothing has no use for it.
#[derive(Clone, Copy, Debug, PartialEq, Eq, Structural)]
pub struct DebugMaterialPlugin;

} // verus!
