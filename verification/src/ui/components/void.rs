use crate::ui::util::Xy;
use vstd::prelude::*;

verus! {

/// Empty space of a fixed size.
#[derive(Clone, Copy, Debug)]
pub struct Void(pub Xy);

/// Empty space of size `size`.
pub fn new(size: Xy) -> (r: Void)
    ensures
        r.0 == size,
{
    Void(size)
}

/// Empty space `width` columns wide and one row high.
pub fn hoz(width: u16) -> (r: Void)
    ensures
        r.0 == (Xy { x: width, y: 1 }),
{
    new(Xy { x: width, y: 1 })
}

/// Empty space one column wide and `height` rows high.
pub fn vert(height: u16) -> (r: Void)
    ensures
        r.0 == (Xy { x: 1, y: height }),
{
    new(Xy { x: 1, y: height })
}

} // verus!
