use crate::datamodel::DataModel;
use crate::ui::canvas::{Canvas, Command};
use crate::ui::util::Xy;
use vstd::prelude::*;

verus! {

/// How many columns a bulb takes.
pub const WIDTH: u16 = 2;

/// A light that shows whether the clock indicator of the data model is lit.
#[derive(Clone, Copy, Debug)]
pub struct Bulb {}

/// A bulb for the clock indicator.
pub fn new() -> (r: Bulb) {
    Bulb {  }
}

/// The glyph of a lit or a dark bulb.
pub open spec fn bulb_glyph(lit: bool) -> &'static str {
    if lit {
        "🔴"
    } else {
        "⚫"
    }
}

/// The drawing of a bulb at `origin`.
pub open spec fn bulb_commands(lit: bool, origin: Xy) -> Seq<Command> {
    seq![Command::MoveTo(origin), Command::Write(bulb_glyph(lit))]
}

/// A bulb shows the clock indicator: it moves to its place and writes a red disc when the
/// indicator is lit and a black one when it is dark.
pub proof fn law_bulb_shows_indicator(lit: bool, origin: Xy)
    ensures
        bulb_commands(lit, origin).len() == 2,
        bulb_commands(lit, origin)[0] == Command::MoveTo(origin),
        lit ==> bulb_commands(lit, origin)[1] == Command::Write("🔴"),
        !lit ==> bulb_commands(lit, origin)[1] == Command::Write("⚫"),
{
}

impl Bulb {
    /// The space a bulb takes.
    pub open spec fn spec_size(self) -> Xy {
        Xy { x: WIDTH, y: 1 }
    }

    /// The space a bulb takes.
    pub fn size(&self) -> (r: Xy)
        ensures
            r == self.spec_size(),
    {
        Xy { x: WIDTH, y: 1 }
    }

    /// Draws the bulb at `origin`, lit or dark as the data model says.
    pub fn paint_at(&self, model: &DataModel, origin: Xy, canvas: &mut Canvas)
        ensures
            final(canvas).queued() == old(canvas).queued() + bulb_commands(
                model.spec_clock_indicator_lit(),
                origin,
            ),
    {
        canvas.move_to(origin);
        canvas.write(if model.clock_indicator_lit() { "🔴" } else { "⚫" });
        assert(canvas.queued() =~= old(canvas).queued() + bulb_commands(
            model.spec_clock_indicator_lit(),
            origin,
        ));
    }
}

} // verus!
