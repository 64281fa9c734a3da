use vstd::prelude::*;

verus! {

/// How text is drawn.
#[derive(Clone, Copy, Debug, PartialEq, Eq, Structural, Hash)]
pub enum Style {
    /// The terminal's own colours.
    Default,
    /// Yellow text, for the selected entry of a selector.
    Selected,
}

} // verus!
