use vstd::prelude::*;

verus! {

/// A view with no content of its own yet: it draws nothing and ignores every button.
pub struct DynamicView {}

} // verus!
