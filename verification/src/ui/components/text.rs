use crate::ui::canvas::{Canvas, Command};
use crate::ui::util::{WStr, Xy};
use vstd::prelude::*;

verus! {

/// A fixed string on one row.
#[derive(Clone, Copy, Debug)]
pub struct Text(pub WStr);

/// A fixed string on one row.
pub fn new(text: WStr) -> (r: Text)
    ensures
        r.0 == text,
{
    Text(text)
}

/// The drawing of the string with its first column at `origin`.
pub open spec fn text_commands(text: Text, origin: Xy) -> Seq<Command> {
    seq![Command::MoveTo(origin), Command::Write(text.0.val)]
}

impl Text {
    /// The space the string takes.
    pub open spec fn spec_size(self) -> Xy {
        Xy { x: self.0.width, y: 1 }
    }

    /// The space the string takes.
    pub fn size(&self) -> (r: Xy)
        ensures
            r == self.spec_size(),
    {
        Xy { x: self.0.width, y: 1 }
    }

    /// Draws the string with its first column at `origin`.
    pub fn paint_at(&self, origin: Xy, canvas: &mut Canvas)
        ensures
            final(canvas).queued() == old(canvas).queued() + text_commands(*self, origin),
    {
        canvas.move_to(origin);
        canvas.write(self.0.val);
        assert(canvas.queued() =~= old(canvas).queued() + text_commands(*self, origin));
    }
}

} // verus!
