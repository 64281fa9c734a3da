use super::Widget;
use crate::ui::util::{Rect, Xy};
use vstd::prelude::*;

verus! {

/// Which way a stack lays out its children.
#[derive(Clone, Copy, Debug, PartialEq, Eq, Structural)]
pub enum Direction {
    Hoz,
    Vert,
}

/// The space left for the children of a stack after those that took `used_so_far`.
pub open spec fn remaining_area(dir: Direction, available: Rect, used_so_far: Xy) -> Rect {
    match dir {
        Direction::Hoz => available.spec_hsplit_at(used_so_far.x).1,
        Direction::Vert => available.spec_vsplit_at(used_so_far.y).1,
    }
}

/// The space a stack's children take once one more child has taken `child_used`.
pub open spec fn grown(dir: Direction, used_so_far: Xy, child_used: Xy) -> Xy {
    match dir {
        Direction::Hoz => Xy {
            x: (used_so_far.x + child_used.x) as u16,
            y: if used_so_far.y >= child_used.y { used_so_far.y } else { child_used.y },
        },
        Direction::Vert => Xy {
            x: if used_so_far.x >= child_used.x { used_so_far.x } else { child_used.x },
            y: (used_so_far.y + child_used.y) as u16,
        },
    }
}

/// A direction in which a stack lays out its children.
pub trait Dir {
    /// Whether adding `child_used` to `used_so_far` in this direction stays on a terminal.
    spec fn grows_on_terminal(used_so_far: Xy, child_used: Xy) -> bool;

    /// The space left for the children after those that took `used_so_far`.
    fn available_for_remaining_children(available: Rect, used_so_far: Xy) -> Rect
        requires
            used_so_far.x <= available.size.x,
            used_so_far.y <= available.size.y,
            available.spec_right() <= u16::MAX,
            available.spec_bottom() <= u16::MAX,
    ;

    /// Adds the space one more child took.
    fn update_used_so_far(used_so_far: &mut Xy, child_used: Xy)
        requires
            Self::grows_on_terminal(*old(used_so_far), child_used),
    ;
}

/// Children side by side, from left to right.
pub struct Hoz;

impl Dir for Hoz {
    open spec fn grows_on_terminal(used_so_far: Xy, child_used: Xy) -> bool {
        used_so_far.x + child_used.x <= u16::MAX
    }

    fn available_for_remaining_children(available: Rect, used_so_far: Xy) -> (r: Rect)
        ensures
            r == remaining_area(Direction::Hoz, available, used_so_far),
    {
        available.hsplit_at(used_so_far.x).1
    }

    fn update_used_so_far(used_so_far: &mut Xy, child_used: Xy)
        ensures
            *final(used_so_far) == grown(Direction::Hoz, *old(used_so_far), child_used),
    {
        *used_so_far = Xy {
            x: used_so_far.x + child_used.x,
            y: if used_so_far.y >= child_used.y { used_so_far.y } else { child_used.y },
        };
    }
}

/// Children one below the other, from top to bottom.
pub struct Vert;

impl Dir for Vert {
    open spec fn grows_on_terminal(used_so_far: Xy, child_used: Xy) -> bool {
        used_so_far.y + child_used.y <= u16::MAX
    }

    fn available_for_remaining_children(available: Rect, used_so_far: Xy) -> (r: Rect)
        ensures
            r == remaining_area(Direction::Vert, available, used_so_far),
    {
        available.vsplit_at(used_so_far.y).1
    }

    fn update_used_so_far(used_so_far: &mut Xy, child_used: Xy)
        ensures
            *final(used_so_far) == grown(Direction::Vert, *old(used_so_far), child_used),
    {
        *used_so_far = Xy {
            x: if used_so_far.x >= child_used.x { used_so_far.x } else { child_used.x },
            y: used_so_far.y + child_used.y,
        };
    }
}

/// Children laid out one after the other in one direction.
pub struct Stack {
    pub children: Vec<Widget>,
    pub dir: Direction,
}

/// Children side by side.
pub fn new_hoz(children: Vec<Widget>) -> (r: Stack)
    ensures
        r.children@ == children@,
        r.dir == Direction::Hoz,
{
    new(children, Direction::Hoz)
}

/// Children one below the other.
pub fn new_vert(children: Vec<Widget>) -> (r: Stack)
    ensures
        r.children@ == children@,
        r.dir == Direction::Vert,
{
    new(children, Direction::Vert)
}

fn new(children: Vec<Widget>, dir: Direction) -> (r: Stack)
    ensures
        r.children@ == children@,
        r.dir == dir,
{
    Stack { children, dir }
}

} // verus!
