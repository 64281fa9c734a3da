use crate::automaton::{empty_cell, Heading, HeadingSet, State};
use crate::datamodel::DataModel;
use crate::ui::canvas::{lemma_repeat_write, repeat_write, Canvas, Command};
use crate::ui::util::Xy;
use vstd::prelude::*;

verus! {

/// The drawing of the automaton's grid.
#[derive(Clone, Copy, Debug)]
pub struct Automaton {}

/// The drawing of the automaton's grid.
pub fn new() -> (r: Automaton) {
    Automaton {  }
}

/// The space the grid of a `width` by `height` automaton takes: four columns and two rows a
/// cell, and one more of each for the border.
pub open spec fn grid_size(width: nat, height: nat) -> Xy {
    Xy { x: (width * 4 + 1) as u16, y: (height * 2 + 1) as u16 }
}

/// The arrow for a lone glider.
pub open spec fn arrow(h: Heading) -> &'static str {
    match h {
        Heading::PosX => "⮞ ",
        Heading::PosY => "⮟ ",
        Heading::NegX => "⮜ ",
        Heading::NegY => "⮝ ",
    }
}

/// What a cell shows: a ring for two or more gliders, the arrow of a lone glider, or blank.
pub open spec fn glyph(c: HeadingSet) -> &'static str {
    if c.headings().len() >= 2 {
        "o "
    } else if c.headings().len() == 1 {
        arrow(c.headings()[0])
    } else {
        "  "
    }
}

/// The point `dy` rows below `origin`.
pub open spec fn below(origin: Xy, dy: int) -> Xy {
    Xy { x: origin.x, y: (origin.y + dy) as u16 }
}

/// The border line above row `y` of the cells (the top border for row 0).
pub open spec fn border_line(origin: Xy, y: int, width: nat) -> Seq<Command> {
    seq![
        Command::MoveTo(below(origin, 2 * y)),
        Command::Write(if y == 0 { "┏━━━" } else { "┠───" }),
    ] + repeat_write(if y == 0 { "┯━━━" } else { "┼───" }, (width - 1) as nat) + seq![
        Command::Write(if y == 0 { "┓" } else { "┨" }),
    ]
}

/// The first `k` cells of row `y`, each with the border on its left.
pub open spec fn cell_line(s: State, y: int, k: nat) -> Seq<Command>
    decreases k,
{
    if k == 0 {
        Seq::empty()
    } else {
        cell_line(s, y, (k - 1) as nat) + seq![
            Command::Write(if k - 1 == 0 { "┃ " } else { "│ " }),
            Command::Write(glyph(s.cell(k - 1, y))),
        ]
    }
}

/// Row `y` of the grid: the border line above it, then its cells.
pub open spec fn grid_row(s: State, origin: Xy, y: int) -> Seq<Command> {
    border_line(origin, y, s.spec_width()) + seq![Command::MoveTo(below(origin, 2 * y + 1))]
        + cell_line(s, y, s.spec_width()) + seq![Command::Write("┃")]
}

/// The first `k` rows of the grid.
pub open spec fn grid_rows(s: State, origin: Xy, k: nat) -> Seq<Command>
    decreases k,
{
    if k == 0 {
        Seq::empty()
    } else {
        grid_rows(s, origin, (k - 1) as nat) + grid_row(s, origin, k - 1)
    }
}

/// The drawing of the whole grid of `s` with its top left corner at `origin`.
pub open spec fn grid_commands(s: State, origin: Xy) -> Seq<Command> {
    grid_rows(s, origin, s.spec_height()) + seq![
        Command::MoveTo(below(origin, 2 * s.spec_height() as int)),
        Command::Write("┗━━━"),
    ] + repeat_write("┷━━━", (s.spec_width() - 1) as nat) + seq![Command::Write("┛")]
}

/// The first `k` cells of a row are two writes each: the border on the cell's left, then
/// what the cell shows.
proof fn lemma_cell_line(s: State, y: int, k: nat)
    ensures
        cell_line(s, y, k).len() == 2 * k,
        forall|i: int|
            0 <= i < k ==> #[trigger] cell_line(s, y, k)[2 * i] == Command::Write(
                if i == 0 {
                    "┃ "
                } else {
                    "│ "
                },
            ) && cell_line(s, y, k)[2 * i + 1] == Command::Write(glyph(s.cell(i, y))),
    decreases k,
{
    if k > 0 {
        lemma_cell_line(s, y, (k - 1) as nat);
        let prev = cell_line(s, y, (k - 1) as nat);
        assert forall|i: int| 0 <= i < k implies #[trigger] cell_line(s, y, k)[2 * i] == Command::Write(
            if i == 0 {
                "┃ "
            } else {
                "│ "
            },
        ) && cell_line(s, y, k)[2 * i + 1] == Command::Write(glyph(s.cell(i, y))) by {
            if i < k - 1 {
                assert(prev[2 * i] == Command::Write(if i == 0 { "┃ " } else { "│ " }));
            }
        }
    }
}

/// Row `y` of a grid of width `w`: its border line of `w + 2` commands, a move to the line of
/// cells, the cells, and the right border.
proof fn lemma_grid_row(s: State, origin: Xy, y: int)
    requires
        s.spec_width() >= 1,
    ensures
        grid_row(s, origin, y).len() == 3 * s.spec_width() + 4,
        grid_row(s, origin, y)[s.spec_width() + 2int] == Command::MoveTo(below(origin, 2 * y + 1)),
        forall|j: int|
            0 <= j < 2 * s.spec_width() ==> #[trigger] grid_row(s, origin, y)[s.spec_width() + 3 + j]
                == cell_line(s, y, s.spec_width())[j],
{
    let w = s.spec_width();
    lemma_repeat_write(if y == 0 { "┯━━━" } else { "┼───" }, (w - 1) as nat);
    lemma_cell_line(s, y, w);
    assert(border_line(origin, y, w).len() == w + 2);
}

/// The first `k` rows of a grid of width `w` are `3 * w + 4` commands each, one row after the
/// other.
proof fn lemma_grid_rows(s: State, origin: Xy, k: nat)
    requires
        s.spec_width() >= 1,
    ensures
        grid_rows(s, origin, k).len() == k * (3 * s.spec_width() + 4),
        forall|j: int, t: int|
            0 <= j < k && 0 <= t < 3 * s.spec_width() + 4 ==> #[trigger] grid_rows(s, origin, k)[j * (3
                * s.spec_width() + 4) + t] == #[trigger] grid_row(s, origin, j)[t],
    decreases k,
{
    let n = 3 * s.spec_width() + 4;
    if k > 0 {
        lemma_grid_rows(s, origin, (k - 1) as nat);
        lemma_grid_row(s, origin, k - 1);
        assert((k - 1) * n + n == k * n) by (nonlinear_arith);
        assert forall|j: int, t: int| 0 <= j < k && 0 <= t < n implies #[trigger] grid_rows(
            s,
            origin,
            k,
        )[j * n + t] == #[trigger] grid_row(s, origin, j)[t] by {
            if j < k - 1 {
                assert(j * n + t < (k - 1) * n) by (nonlinear_arith)
                    requires
                        0 <= j < k - 1,
                        0 <= t < n,
                ;
                assert(0 <= j * n) by (nonlinear_arith)
                    requires
                        0 <= j,
                        0 <= n,
                ;
            }
        }
    }
}

/// How the grid shows its cells: the line of the cells of row `y` starts at the grid's left
/// edge, `2 * y + 1` rows below its top, and then only writes, two per cell: the border on the
/// cell's left, then the cell itself. A cell with two or more gliders shows a ring; a lone
/// glider shows an arrow pointing the way it moves (x grows to the right of the screen, y
/// downwards): `⮞` for `PosX`, `⮟` for `PosY`, `⮜` for `NegX`, `⮝` for `NegY`; an empty cell
/// shows blank.
pub proof fn law_grid_cells(s: State, origin: Xy, x: int, y: int)
    requires
        s.spec_width() >= 1,
        0 <= x < s.spec_width(),
        0 <= y < s.spec_height(),
    ensures
        ({
            let commands = grid_commands(s, origin);
            let line = y * (3 * s.spec_width() + 4) + s.spec_width() + 2;
            let c = s.cell(x, y);
            &&& 0 <= line && line + 2 * x + 2 < commands.len()
            &&& commands[line] == Command::MoveTo(
                Xy { x: origin.x, y: (origin.y + 2 * y + 1) as u16 },
            )
            &&& forall|j: int| line < j <= line + 2 * x + 2 ==> (#[trigger] commands[j]) is Write
            &&& commands[line + 2 * x + 1] == Command::Write(if x == 0 { "┃ " } else { "│ " })
            &&& commands[line + 2 * x + 2] == Command::Write(
                if c.count() >= 2 {
                    "o "
                } else if c == empty_cell().insert(Heading::PosX) {
                    "⮞ "
                } else if c == empty_cell().insert(Heading::PosY) {
                    "⮟ "
                } else if c == empty_cell().insert(Heading::NegX) {
                    "⮜ "
                } else if c == empty_cell().insert(Heading::NegY) {
                    "⮝ "
                } else {
                    "  "
                },
            )
        }),
{
    let w = s.spec_width();
    let h = s.spec_height();
    let n = 3 * w + 4;
    lemma_grid_rows(s, origin, h);
    lemma_grid_row(s, origin, y);
    lemma_cell_line(s, y, w);
    let rows = grid_rows(s, origin, h);
    let commands = grid_commands(s, origin);
    let line = y * n + w + 2;
    assert(0 <= y * n && (y + 1) * n <= h * n) by (nonlinear_arith)
        requires
            0 <= y < h,
            n >= 0,
    ;
    assert((y + 1) * n == y * n + n) by (nonlinear_arith);
    assert(commands.len() >= rows.len());
    assert forall|j: int| 0 <= j < rows.len() implies commands[j] == rows[j] by {}
    assert(rows[y * n + (w + 2)] == grid_row(s, origin, y)[w + 2int]);
    assert forall|j: int| line < j <= line + 2 * x + 2 implies (#[trigger] commands[j]) is Write by {
        let t = j - line - 1;
        assert(rows[y * n + (w + 3 + t)] == grid_row(s, origin, y)[w + 3 + t]);
        assert(grid_row(s, origin, y)[w + 3 + t] == cell_line(s, y, w)[t]);
        let i = t / 2;
        if t % 2 == 0 {
            assert(t == 2 * i);
            assert(cell_line(s, y, w)[2 * i] is Write);
        } else {
            assert(t == 2 * i + 1);
            assert(cell_line(s, y, w)[2 * i] is Write);
        }
    }
    assert(rows[y * n + (w + 3 + 2 * x)] == grid_row(s, origin, y)[w + 3 + 2 * x]);
    assert(rows[y * n + (w + 3 + 2 * x + 1)] == grid_row(s, origin, y)[w + 3 + 2 * x + 1]);
    assert(grid_row(s, origin, y)[w + 3 + 2 * x] == cell_line(s, y, w)[2 * x]);
    assert(grid_row(s, origin, y)[w + 3 + (2 * x + 1)] == cell_line(s, y, w)[2 * x + 1]);
    let c = s.cell(x, y);
    assert(c.headings().len() == c.count());
}

/// How the grid draws its lines. Above row `y` of the cells, at the grid's left edge and `2 * y`
/// rows below its top, it writes a left piece, one crossing piece per cell after the first and
/// a right piece: heavy corners and tees for the top border, light crossings inside; every line
/// of cells ends with a heavy right border; and the bottom border, `2 * height` rows below the
/// top, is heavy with its own corners and tees.
pub proof fn law_grid_lines(s: State, origin: Xy, y: int)
    requires
        s.spec_width() >= 1,
        0 <= y < s.spec_height(),
    ensures
        ({
            let commands = grid_commands(s, origin);
            let w = s.spec_width() as int;
            let h = s.spec_height() as int;
            let row = y * (3 * w + 4);
            let bottom = h * (3 * w + 4);
            &&& 0 <= row && row + 3 * w + 4 <= bottom && bottom + w + 2 == commands.len()
            &&& commands[row] == Command::MoveTo(Xy { x: origin.x, y: (origin.y + 2 * y) as u16 })
            &&& commands[row + 1] == Command::Write(if y == 0 { "┏━━━" } else { "┠───" })
            &&& forall|i: int|
                1 <= i < w ==> #[trigger] commands[row + 1 + i] == Command::Write(
                    if y == 0 {
                        "┯━━━"
                    } else {
                        "┼───"
                    },
                )
            &&& commands[row + w + 1] == Command::Write(if y == 0 { "┓" } else { "┨" })
            &&& commands[row + 3 * w + 3] == Command::Write("┃")
            &&& commands[bottom] == Command::MoveTo(
                Xy { x: origin.x, y: (origin.y + 2 * h) as u16 },
            )
            &&& commands[bottom + 1] == Command::Write("┗━━━")
            &&& forall|i: int| 1 <= i < w ==> #[trigger] commands[bottom + 1 + i] == Command::Write("┷━━━")
            &&& commands[bottom + w + 1] == Command::Write("┛")
        }),
{
    let w = s.spec_width() as int;
    let h = s.spec_height() as int;
    let n = 3 * w + 4;
    let row = y * n;
    let bottom = h * n;
    lemma_grid_rows(s, origin, s.spec_height());
    lemma_grid_row(s, origin, y);
    let top_piece = if y == 0 { "┯━━━" } else { "┼───" };
    lemma_repeat_write(top_piece, (w - 1) as nat);
    lemma_repeat_write("┷━━━", (w - 1) as nat);
    let rows = grid_rows(s, origin, s.spec_height());
    let commands = grid_commands(s, origin);
    let r = grid_row(s, origin, y);
    assert(0 <= y * n && (y + 1) * n <= h * n) by (nonlinear_arith)
        requires
            0 <= y < h,
            n >= 0,
    ;
    assert((y + 1) * n == y * n + n) by (nonlinear_arith);
    assert forall|j: int| 0 <= j < rows.len() implies commands[j] == rows[j] by {}
    assert(r == border_line(origin, y, s.spec_width()) + seq![Command::MoveTo(below(origin, 2 * y + 1))]
        + cell_line(s, y, s.spec_width()) + seq![Command::Write("┃")]);
    assert(rows[row + 0] == r[0]);
    assert(rows[row + 1] == r[1]);
    assert(rows[row + (w + 1)] == r[w + 1]);
    assert(rows[row + (3 * w + 3)] == r[3 * w + 3]);
    assert forall|i: int| 1 <= i < w implies #[trigger] commands[row + 1 + i] == Command::Write(top_piece) by {
        assert(rows[row + (1 + i)] == r[1 + i]);
        assert(r[1 + i] == repeat_write(top_piece, (w - 1) as nat)[i - 1]);
    }
    let tail = seq![Command::MoveTo(below(origin, 2 * h as int)), Command::Write("┗━━━")]
        + repeat_write("┷━━━", (w - 1) as nat) + seq![Command::Write("┛")];
    assert(commands =~= rows + tail);
    assert forall|i: int| 1 <= i < w implies #[trigger] commands[bottom + 1 + i] == Command::Write("┷━━━") by {
        assert(commands[bottom + 1 + i] == tail[1 + i]);
    }
    assert(commands[bottom] == tail[0]);
    assert(commands[bottom + 1] == tail[1]);
    assert(commands[bottom + w + 1] == tail[w + 1]);
}

impl Automaton {
    /// The space the grid takes.
    pub open spec fn spec_size(self, model: DataModel) -> Xy {
        grid_size(model.automaton().spec_width(), model.automaton().spec_height())
    }

    /// The space the grid takes.
    pub fn size(&self, model: &DataModel) -> (r: Xy)
        requires
            model.wf(),
        ensures
            r == self.spec_size(*model),
            r == (Xy { x: 37, y: 19 }),
    {
        proof {
            model.lemma_wf();
        }
        let state = model.automaton_state();
        let w = state.width();
        let h = state.height();
        Xy { x: (w * 4 + 1) as u16, y: (h * 2 + 1) as u16 }
    }

    /// Draws the grid with its top left corner at `origin`.
    pub fn paint_at(&self, model: &DataModel, origin: Xy, canvas: &mut Canvas)
        requires
            model.wf(),
            origin.y + 19 <= u16::MAX,
        ensures
            final(canvas).queued() == old(canvas).queued() + grid_commands(model.automaton(), origin),
    {
        proof {
            model.lemma_wf();
        }
        let state = model.automaton_state();
        let ghost s = model.automaton();
        let w = state.width();
        let h = state.height();
        assert(w == s.spec_width() && h == s.spec_height());
        let mut y: usize = 0;
        while y < h
            invariant
                s == model.automaton(),
                state.wf(),
                w == state.spec_width(),
                h == state.spec_height(),
                w == 9,
                h == 9,
                s.spec_width() == 9,
                s.spec_height() == 9,
                forall|x: int, y: int| #[trigger] state.cell(x, y) == s.cell(x, y),
                origin.y + 19 <= u16::MAX,
                y <= h,
                canvas.queued() == old(canvas).queued() + grid_rows(s, origin, y as nat),
            decreases h - y,
        {
            let ghost before = canvas.queued();
            let first = y == 0;
            canvas.move_to(origin.add_y((y as u16) * 2));
            canvas.write(if first { "┏━━━" } else { "┠───" });
            canvas.write_repeat(if first { "┯━━━" } else { "┼───" }, w - 1);
            canvas.write(if first { "┓" } else { "┨" });
            assert(canvas.queued() =~= before + border_line(origin, y as int, w as nat));
            canvas.move_to(origin.add_y((y as u16) * 2 + 1));
            let ghost line_start = canvas.queued();
            let mut x: usize = 0;
            while x < w
                invariant
                    state.wf(),
                    w == state.spec_width(),
                    h == state.spec_height(),
                    w == 9,
                    h == 9,
                    y < h,
                    forall|x: int, y: int| #[trigger] state.cell(x, y) == s.cell(x, y),
                    x <= w,
                    canvas.queued() == line_start + cell_line(s, y as int, x as nat),
                decreases w - x,
            {
                canvas.write(if x == 0 { "┃ " } else { "│ " });
                let hs = state.gliders_at(x, y);
                let g = if hs.len() >= 2 {
                    "o "
                } else if hs.len() == 1 {
                    match hs[0] {
                        Heading::PosX => "⮞ ",
                        Heading::PosY => "⮟ ",
                        Heading::NegX => "⮜ ",
                        Heading::NegY => "⮝ ",
                    }
                } else {
                    "  "
                };
                assert(g == glyph(s.cell(x as int, y as int)));
                canvas.write(g);
                x = x + 1;
                assert(canvas.queued() =~= line_start + cell_line(s, y as int, x as nat));
            }
            canvas.write("┃");
            y = y + 1;
            assert(canvas.queued() =~= old(canvas).queued() + grid_rows(s, origin, y as nat));
        }
        canvas.move_to(origin.add_y((h as u16) * 2));
        canvas.write("┗━━━");
        canvas.write_repeat("┷━━━", w - 1);
        canvas.write("┛");
        assert(canvas.queued() =~= old(canvas).queued() + grid_commands(s, origin));
    }
}

} // verus!
