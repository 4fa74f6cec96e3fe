use vstd::prelude::*;

verus! {

/// A view that, when opened, asks the driver to run one action, and closes
/// again on the next frame.
pub struct FuncView {
    /// The number of the action the driver runs when the view is opened.
    pub action: u64,
}

impl FuncView {
    pub fn new(action: u64) -> (r: FuncView)
        ensures
            r.action == action,
    {
        FuncView { action }
    }
}

} // verus!
