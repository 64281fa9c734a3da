use super::automaton::below;
use super::bulb::{bulb_commands, Bulb, WIDTH};
use super::Widget;
use crate::datamodel::DataModel;
use crate::ui::canvas::{lemma_repeat_write, repeat_write, Canvas, Command};
use crate::ui::util::{Rect, WStr, Xy};
use vstd::prelude::*;

verus! {

/// A box drawn around a child, with a title and maybe a bulb in its top border.
pub struct Frame {
    pub title: WStr,
    pub bulb: Option<Bulb>,
    pub child: Widget,
}

/// A frame waiting for its child.
pub struct Builder {
    pub title: WStr,
    pub bulb: Option<Bulb>,
}

/// A frame titled `title`, without a bulb so far.
pub fn new(title: WStr) -> (r: Builder)
    ensures
        r.title == title,
        r.bulb is None,
{
    Builder { title, bulb: None }
}

impl Builder {
    /// The same frame, with `bulb` in its top border.
    pub fn with_bulb(self, bulb: Bulb) -> (r: Builder)
        ensures
            r.title == self.title,
            r.bulb == Some(bulb),
    {
        Builder { bulb: Some(bulb), ..self }
    }

    /// The frame around `child`.
    pub fn containing(self, child: Widget) -> (r: Frame)
        ensures
            r.title == self.title,
            r.bulb == self.bulb,
            r.child == child,
    {
        let Builder { title, bulb } = self;
        Frame { title, bulb, child }
    }
}

/// The smallest space a frame takes: its corners and title, and room for the bulb.
pub open spec fn frame_min_size(title: WStr, has_bulb: bool) -> Xy {
    Xy { x: (4 + title.width + if has_bulb { WIDTH + 2 } else { 0 }) as u16, y: 2 }
}

/// The space a frame offers its child when it is given `available`: all of it but the border
/// and a column of padding on each side.
pub open spec fn child_area(available: Rect) -> Rect {
    Rect {
        top_left: Xy { x: (available.top_left.x + 2) as u16, y: (available.top_left.y + 1) as u16 },
        size: Xy { x: (available.size.x - 4) as u16, y: (available.size.y - 2) as u16 },
    }
}

/// The size of a frame whose child takes `child_used`.
pub open spec fn frame_size_around(min: Xy, child_used: Xy) -> Xy {
    Xy {
        x: if min.x >= child_used.x + 4 { min.x } else { (child_used.x + 4) as u16 },
        y: if min.y >= child_used.y + 2 { min.y } else { (child_used.y + 2) as u16 },
    }
}

/// Where the bulb sits in the top border of a frame occupying `rect`.
pub open spec fn bulb_origin(rect: Rect) -> Xy {
    Xy { x: (rect.spec_right() - 4) as u16, y: rect.top_left.y }
}

/// The top border: corner, title, a line with the bulb in it if there is one, corner.
pub open spec fn top_border(title: WStr, bulb: Option<Bulb>, lit: bool, rect: Rect) -> Seq<Command> {
    seq![
        Command::MoveTo(rect.top_left),
        Command::Write("┌╴"),
        Command::Write(title.val),
        Command::Write("╶"),
    ] + (match bulb {
        Some(_) => repeat_write("─", (rect.size.x - title.width - WIDTH - 6) as nat) + seq![
            Command::Write("┤"),
        ] + bulb_commands(lit, bulb_origin(rect)) + seq![Command::Write("├")],
        None => repeat_write("─", (rect.size.x - title.width - 4) as nat),
    }) + seq![Command::Write("┐")]
}

/// The left and right borders of the first `n` rows below the top border.
pub open spec fn side_borders(rect: Rect, n: nat) -> Seq<Command>
    decreases n,
{
    if n == 0 {
        Seq::empty()
    } else {
        side_borders(rect, (n - 1) as nat) + seq![
            Command::MoveTo(below(rect.top_left, n as int)),
            Command::Write("│"),
            Command::MoveTo(Xy { x: (rect.spec_right() - 1) as u16, y: (rect.top_left.y + n) as u16 }),
            Command::Write("│"),
        ]
    }
}

/// The bottom border.
pub open spec fn bottom_border(rect: Rect) -> Seq<Command> {
    seq![Command::MoveTo(below(rect.top_left, rect.size.y - 1)), Command::Write("└")] + repeat_write(
        "─",
        (rect.size.x - 2) as nat,
    ) + seq![Command::Write("┘")]
}

/// The whole border of a frame occupying `rect`.
pub open spec fn border_commands(title: WStr, bulb: Option<Bulb>, lit: bool, rect: Rect) -> Seq<Command> {
    top_border(title, bulb, lit, rect) + side_borders(rect, (rect.size.y - 2) as nat) + bottom_border(
        rect,
    )
}

/// The side borders of the first `n` rows below the top border are four commands a row; those
/// of row `dy` move to its left column, write "│", move to its right column and write "│".
proof fn lemma_side_borders(rect: Rect, n: nat, dy: int)
    requires
        1 <= dy <= n,
    ensures
        side_borders(rect, n).len() == 4 * n,
        side_borders(rect, n)[4 * dy - 4] == Command::MoveTo(
            Xy { x: rect.top_left.x, y: (rect.top_left.y + dy) as u16 },
        ),
        side_borders(rect, n)[4 * dy - 3] == Command::Write("│"),
        side_borders(rect, n)[4 * dy - 2] == Command::MoveTo(
            Xy { x: (rect.spec_right() - 1) as u16, y: (rect.top_left.y + dy) as u16 },
        ),
        side_borders(rect, n)[4 * dy - 1] == Command::Write("│"),
    decreases n,
{
    if dy < n {
        lemma_side_borders(rect, (n - 1) as nat, dy);
    } else if n > 1 {
        lemma_side_borders(rect, (n - 1) as nat, 1);
    } else {
        assert(side_borders(rect, 0).len() == 0);
    }
}

/// A frame is a closed box: on every row strictly between its top and bottom borders, the
/// drawing of its border moves to the frame's left column and writes "│", then moves to its
/// right column and writes "│".
pub proof fn law_frame_sides_closed(title: WStr, bulb: Option<Bulb>, lit: bool, rect: Rect, dy: int)
    requires
        rect.size.y >= 2,
        1 <= dy <= rect.size.y - 2,
    ensures
        exists|k: int|
            0 <= k && k + 3 < border_commands(title, bulb, lit, rect).len()
                && #[trigger] border_commands(title, bulb, lit, rect)[k] == Command::MoveTo(
                Xy { x: rect.top_left.x, y: (rect.top_left.y + dy) as u16 },
            ) && border_commands(title, bulb, lit, rect)[k + 1] == Command::Write("│")
                && border_commands(title, bulb, lit, rect)[k + 2] == Command::MoveTo(
                Xy { x: (rect.spec_right() - 1) as u16, y: (rect.top_left.y + dy) as u16 },
            ) && border_commands(title, bulb, lit, rect)[k + 3] == Command::Write("│"),
{
    let top = top_border(title, bulb, lit, rect);
    let n = (rect.size.y - 2) as nat;
    let sides = side_borders(rect, n);
    let commands = border_commands(title, bulb, lit, rect);
    lemma_side_borders(rect, n, dy);
    let k = top.len() + 4 * dy - 4;
    assert(commands[k] == sides[4 * dy - 4]);
    assert(commands[k + 1] == sides[4 * dy - 3]);
    assert(commands[k + 2] == sides[4 * dy - 2]);
    assert(commands[k + 3] == sides[4 * dy - 1]);
}

/// The top and bottom of a frame: its border starts at the frame's top left corner with the
/// corner, the title and the title's end, and its top line ends with the top right corner
/// just before the side borders; it ends with the bottom line, on the frame's last row, from
/// the bottom left corner through a line to the bottom right corner, as wide as the frame
/// (a move, then one write per column).
pub proof fn law_frame_top_and_bottom(title: WStr, bulb: Option<Bulb>, lit: bool, rect: Rect)
    requires
        rect.size.x >= 2,
        rect.size.y >= 2,
    ensures
        ({
            let commands = border_commands(title, bulb, lit, rect);
            let bottom = commands.len() - rect.size.x - 1;
            let sides_start = bottom - 4 * (rect.size.y - 2);
            &&& 4 <= sides_start - 1
            &&& commands[0] == Command::MoveTo(rect.top_left)
            &&& commands[1] == Command::Write("┌╴")
            &&& commands[2] == Command::Write(title.val)
            &&& commands[3] == Command::Write("╶")
            &&& commands[sides_start - 1] == Command::Write("┐")
            &&& commands[bottom] == Command::MoveTo(
                Xy { x: rect.top_left.x, y: (rect.top_left.y + rect.size.y - 1) as u16 },
            )
            &&& commands[bottom + 1] == Command::Write("└")
            &&& forall|i: int|
                2 <= i < rect.size.x ==> #[trigger] commands[bottom + i] == Command::Write("─")
            &&& commands[commands.len() - 1] == Command::Write("┘")
        }),
{
    let top = top_border(title, bulb, lit, rect);
    let n = (rect.size.y - 2) as nat;
    let sides = side_borders(rect, n);
    let bot = bottom_border(rect);
    let commands = border_commands(title, bulb, lit, rect);
    if n >= 1 {
        lemma_side_borders(rect, n, 1);
    } else {
        assert(sides.len() == 0);
    }
    lemma_repeat_write("─", (rect.size.x - 2) as nat);
    assert(bot.len() == rect.size.x + 1);
    assert(commands =~= top + sides + bot);
    let middle = match bulb {
        Some(_) => repeat_write("─", (rect.size.x - title.width - WIDTH - 6) as nat) + seq![
            Command::Write("┤"),
        ] + bulb_commands(lit, bulb_origin(rect)) + seq![Command::Write("├")],
        None => repeat_write("─", (rect.size.x - title.width - 4) as nat),
    };
    let head = seq![
        Command::MoveTo(rect.top_left),
        Command::Write("┌╴"),
        Command::Write(title.val),
        Command::Write("╶"),
    ];
    assert(top == head + middle + seq![Command::Write("┐")]);
    assert(top.len() == 5 + middle.len());
    assert(commands[0] == top[0]);
    assert(commands[1] == top[1]);
    assert(commands[2] == top[2]);
    assert(commands[3] == top[3]);
    assert(commands[top.len() - 1] == top[top.len() - 1]);
    let b = (top.len() + sides.len()) as int;
    assert(commands[b] == bot[0]);
    assert(commands[b + 1] == bot[1]);
    assert forall|i: int| 2 <= i < rect.size.x implies #[trigger] commands[b + i] == Command::Write("─") by {
        assert(commands[b + i] == bot[i]);
        assert(bot[i] == repeat_write("─", (rect.size.x - 2) as nat)[i - 2]);
    }
    assert(commands[commands.len() - 1] == bot[bot.len() - 1]);
}

impl Frame {
    /// The title fits, with the border and the bulb, on a terminal line.
    pub open spec fn title_fits(&self) -> bool {
        self.title.width + 8 <= u16::MAX
    }

    /// The smallest space the frame takes.
    pub fn min_size(&self) -> (r: Xy)
        requires
            self.title_fits(),
        ensures
            r == frame_min_size(self.title, self.bulb is Some),
    {
        Xy { x: 4 + self.title.width + (if self.bulb.is_some() { WIDTH + 2 } else { 0 }), y: 2 }
    }

    /// Draws the border of the frame occupying `rect`.
    pub fn paint_border(&self, model: &DataModel, rect: Rect, canvas: &mut Canvas)
        requires
            self.title_fits(),
            rect.size.x >= frame_min_size(self.title, self.bulb is Some).x,
            rect.size.y >= 2,
            rect.spec_right() <= u16::MAX,
            rect.spec_bottom() <= u16::MAX,
        ensures
            final(canvas).queued() == old(canvas).queued() + border_commands(
                self.title,
                self.bulb,
                model.spec_clock_indicator_lit(),
                rect,
            ),
    {
        let ghost lit = model.spec_clock_indicator_lit();
        canvas.move_to(rect.top_left());
        canvas.write("┌╴");
        canvas.write(self.title.val);
        canvas.write("╶");
        match &self.bulb {
            Some(bulb) => {
                canvas.write_repeat("─", (rect.width() - self.title.width - WIDTH - 6) as usize);
                canvas.write("┤");
                bulb.paint_at(model, rect.top_right().sub_x(4), canvas);
                canvas.write("├");
            },
            None => {
                canvas.write_repeat("─", (rect.width() - self.title.width - 4) as usize);
            },
        }
        canvas.write("┐");
        assert(canvas.queued() =~= old(canvas).queued() + top_border(self.title, self.bulb, lit, rect));
        let ghost top_end = canvas.queued();
        let mut dy: u16 = 1;
        while dy < rect.height() - 1
            invariant
                1 <= dy <= rect.size.y - 1,
                rect.size.y >= 2,
                rect.spec_right() <= u16::MAX,
                rect.spec_bottom() <= u16::MAX,
                rect.size.x >= 4,
                canvas.queued() == top_end + side_borders(rect, (dy - 1) as nat),
            decreases rect.size.y - 1 - dy,
        {
            canvas.move_to(rect.top_left().add_y(dy));
            canvas.write("│");
            canvas.move_to(rect.top_right().add_y(dy).sub_x(1));
            canvas.write("│");
            dy = dy + 1;
            assert(canvas.queued() =~= top_end + side_borders(rect, (dy - 1) as nat));
        }
        canvas.move_to(rect.bottom_left().sub_y(1));
        canvas.write("└");
        canvas.write_repeat("─", (rect.width() - 2) as usize);
        canvas.write("┘");
        assert(canvas.queued() =~= old(canvas).queued() + border_commands(self.title, self.bulb, lit, rect));
    }
}

} // verus!
