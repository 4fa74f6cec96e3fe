use vstd::prelude::*;

verus! {

/// A view that draws nothing and ignores every button.
pub struct EmptyView {}

impl EmptyView {
    pub fn new() -> (r: EmptyView) {
        EmptyView {}
    }
}

} // verus!
