use crate::datamodel::{ClockSrc, DataModel};
use crate::ui::canvas::{Canvas, Command};
use crate::ui::mouse::{zones_applied, Zone, ZoneMap};
use crate::ui::styles::Style;
use crate::ui::util::{Rect, WStr, Xy};
use vstd::prelude::*;

verus! {

/// The separator drawn between the entries of a selector.
pub open spec fn spec_sep() -> WStr {
    WStr { val: " · ", width: 3 }
}

/// The separator drawn between the entries of a selector.
pub fn sep() -> (r: WStr)
    ensures
        r == spec_sep(),
{
    WStr { val: " · ", width: 3 }
}

/// A type whose values a selector offers.
pub trait Enum: Sized {
    /// Every value, in the order they are shown.
    fn all() -> Vec<Self>;

    /// The text shown for the value.
    fn label(&self) -> WStr;

    /// The mouse zone that selects the value.
    fn mouse_zone(&self) -> Zone;
}

/// Every clock source, in the order they are shown.
pub open spec fn all_clock_srcs() -> Seq<ClockSrc> {
    seq![ClockSrc::Builtin, ClockSrc::Midi]
}

/// The text shown for a clock source.
pub open spec fn clock_src_label(c: ClockSrc) -> WStr {
    match c {
        ClockSrc::Builtin => WStr { val: "builtin", width: 7 },
        ClockSrc::Midi => WStr { val: "midi", width: 4 },
    }
}

/// The mouse zone that selects a clock source.
pub open spec fn clock_src_zone(c: ClockSrc) -> Zone {
    match c {
        ClockSrc::Builtin => Zone::ClockSrcBuiltin,
        ClockSrc::Midi => Zone::ClockSrcMidi,
    }
}

impl Enum for ClockSrc {
    fn all() -> (r: Vec<ClockSrc>)
        ensures
            r@ == all_clock_srcs(),
    {
        let r = vec![ClockSrc::Builtin, ClockSrc::Midi];
        assert(r@ =~= all_clock_srcs());
        r
    }

    fn label(&self) -> (r: WStr)
        ensures
            r == clock_src_label(*self),
    {
        match *self {
            ClockSrc::Builtin => WStr { val: "builtin", width: 7 },
            ClockSrc::Midi => WStr { val: "midi", width: 4 },
        }
    }

    fn mouse_zone(&self) -> (r: Zone)
        ensures
            r == clock_src_zone(*self),
    {
        match *self {
            ClockSrc::Builtin => Zone::ClockSrcBuiltin,
            ClockSrc::Midi => Zone::ClockSrcMidi,
        }
    }
}

/// The column, counted from the selector's left edge, where entry `i` starts.
pub open spec fn entry_offset(items: Seq<ClockSrc>, i: nat) -> int
    decreases i,
{
    if i == 0 {
        0
    } else {
        entry_offset(items, (i - 1) as nat) + clock_src_label(items[i - 1]).width + spec_sep().width
    }
}

/// Where the entries of the clock source selector start.
pub proof fn lemma_clock_src_offsets()
    ensures
        entry_offset(all_clock_srcs(), 0) == 0,
        entry_offset(all_clock_srcs(), 1) == 10,
        entry_offset(all_clock_srcs(), 2) == 17,
        selector_width(all_clock_srcs()) == 14,
{
    reveal_with_fuel(entry_offset, 3);
}

/// The width of a selector over `items`: the labels with a separator between each two.
pub open spec fn selector_width(items: Seq<ClockSrc>) -> int {
    entry_offset(items, items.len()) - spec_sep().width
}

/// The mouse zones of a selector with its left end at `origin`: one per entry, over its label.
pub open spec fn selector_zones(origin: Xy) -> Seq<(Rect, Zone)> {
    Seq::new(
        all_clock_srcs().len(),
        |i: int|
            (
                Rect {
                    top_left: Xy {
                        x: (origin.x + entry_offset(all_clock_srcs(), i as nat)) as u16,
                        y: origin.y,
                    },
                    size: Xy { x: clock_src_label(all_clock_srcs()[i]).width, y: 1 },
                },
                clock_src_zone(all_clock_srcs()[i]),
            ),
    )
}

/// The drawing of entry `i`: the separator if it is not the first, then the label,
/// highlighted if it is the selected value.
pub open spec fn entry_commands(item: ClockSrc, i: int, selected: ClockSrc) -> Seq<Command> {
    (if i != 0 {
        seq![Command::Write(spec_sep().val)]
    } else {
        Seq::empty()
    }) + (if item == selected {
        seq![Command::SetStyle(Style::Selected)]
    } else {
        Seq::empty()
    }) + seq![Command::Write(clock_src_label(item).val), Command::ResetStyle]
}

/// The drawing of the first `k` entries.
pub open spec fn entries_commands(k: nat, selected: ClockSrc) -> Seq<Command>
    decreases k,
{
    if k == 0 {
        Seq::empty()
    } else {
        entries_commands((k - 1) as nat, selected) + entry_commands(
            all_clock_srcs()[k - 1],
            k - 1,
            selected,
        )
    }
}

/// The drawing of a selector with its left end at `origin` and `selected` highlighted.
pub open spec fn selector_commands(origin: Xy, selected: ClockSrc) -> Seq<Command> {
    seq![Command::MoveTo(origin)] + entries_commands(all_clock_srcs().len(), selected)
}

/// How the selector shows the selected clock source: after moving to its left end it writes
/// "builtin", the separator and "midi", each label followed by a reset of the style, and the
/// label of the selected source, and only that one, is preceded by the selected style.
pub proof fn law_selector_highlights_selected(origin: Xy, selected: ClockSrc)
    ensures
        selector_commands(origin, selected) == match selected {
            ClockSrc::Builtin => seq![
                Command::MoveTo(origin),
                Command::SetStyle(Style::Selected),
                Command::Write("builtin"),
                Command::ResetStyle,
                Command::Write(" · "),
                Command::Write("midi"),
                Command::ResetStyle,
            ],
            ClockSrc::Midi => seq![
                Command::MoveTo(origin),
                Command::Write("builtin"),
                Command::ResetStyle,
                Command::Write(" · "),
                Command::SetStyle(Style::Selected),
                Command::Write("midi"),
                Command::ResetStyle,
            ],
        },
{
    reveal_with_fuel(entries_commands, 3);
    assert(selector_commands(origin, selected) =~= match selected {
        ClockSrc::Builtin => seq![
            Command::MoveTo(origin),
            Command::SetStyle(Style::Selected),
            Command::Write("builtin"),
            Command::ResetStyle,
            Command::Write(" · "),
            Command::Write("midi"),
            Command::ResetStyle,
        ],
        ClockSrc::Midi => seq![
            Command::MoveTo(origin),
            Command::Write("builtin"),
            Command::ResetStyle,
            Command::Write(" · "),
            Command::SetStyle(Style::Selected),
            Command::Write("midi"),
            Command::ResetStyle,
        ],
    });
}

/// A row of labels, one per clock source, with the one the data model holds highlighted.
#[derive(Clone, Copy, Debug)]
pub struct Selector {
    width: u16,
}

/// A selector of the clock source.
pub fn new() -> (r: Selector)
    ensures
        r.spec_width() == selector_width(all_clock_srcs()),
        r.spec_width() == 14,
{
    let items = ClockSrc::all();
    proof {
        lemma_clock_src_offsets();
    }
    let mut total: u16 = 0;
    let mut i: usize = 0;
    while i < items.len()
        invariant
            items@ == all_clock_srcs(),
            i <= items@.len(),
            total == entry_offset(items@, i as nat),
            entry_offset(all_clock_srcs(), 0) == 0,
            entry_offset(all_clock_srcs(), 1) == 10,
            entry_offset(all_clock_srcs(), 2) == 17,
            selector_width(all_clock_srcs()) == 14,
        decreases items@.len() - i,
    {
        total = total + items[i].label().width + sep().width;
        i = i + 1;
    }
    Selector { width: total - sep().width }
}

impl Selector {
    /// The number of columns the selector takes.
    pub closed spec fn spec_width(self) -> u16 {
        self.width
    }

    /// The space the selector takes.
    pub open spec fn spec_size(self) -> Xy {
        Xy { x: self.spec_width(), y: 1 }
    }

    /// A selector built by `new`.
    pub open spec fn wf(self) -> bool {
        self.spec_width() == 14
    }

    /// The space the selector takes.
    pub fn size(&self) -> (r: Xy)
        ensures
            r == self.spec_size(),
    {
        Xy { x: self.width, y: 1 }
    }

    /// Puts the label of each entry into its mouse zone, with the selector's left end at `origin`.
    pub fn set_zones(&self, origin: Xy, mouse_map: &mut ZoneMap)
        requires
            self.wf(),
            old(mouse_map).wf(),
            origin.x + 14 <= old(mouse_map).spec_width(),
            origin.y + 1 <= old(mouse_map).spec_height(),
        ensures
            final(mouse_map).wf(),
            final(mouse_map).spec_width() == old(mouse_map).spec_width(),
            final(mouse_map).spec_height() == old(mouse_map).spec_height(),
            forall|x: int, y: int|
                final(mouse_map).in_map(x, y) ==> #[trigger] final(mouse_map).zone_at(x, y)
                    == zones_applied(selector_zones(origin), x, y, old(mouse_map).zone_at(x, y)),
    {
        let items = ClockSrc::all();
        let ghost zones = selector_zones(origin);
        proof {
            lemma_clock_src_offsets();
            mouse_map.lemma_wf();
        }
        let mut x: u16 = 0;
        let mut i: usize = 0;
        while i < items.len()
            invariant
                items@ == all_clock_srcs(),
                zones == selector_zones(origin),
                i <= items@.len(),
                entry_offset(all_clock_srcs(), 0) == 0,
                entry_offset(all_clock_srcs(), 1) == 10,
                entry_offset(all_clock_srcs(), 2) == 17,
                x == if i == 0 {
                    0
                } else {
                    entry_offset(items@, i as nat) - spec_sep().width
                },
                mouse_map.wf(),
                mouse_map.spec_width() == old(mouse_map).spec_width(),
                mouse_map.spec_height() == old(mouse_map).spec_height(),
                origin.x + 14 <= mouse_map.spec_width(),
                origin.y + 1 <= mouse_map.spec_height(),
                mouse_map.spec_width() <= u16::MAX,
                forall|xx: int, yy: int|
                    mouse_map.in_map(xx, yy) ==> #[trigger] mouse_map.zone_at(xx, yy) == zones_applied(
                        zones.take(i as int),
                        xx,
                        yy,
                        old(mouse_map).zone_at(xx, yy),
                    ),
            decreases items@.len() - i,
        {
            if i != 0 {
                x = x + sep().width;
            }
            let variant = items[i];
            let label = variant.label();
            let rect = Rect { top_left: origin.add_x(x), size: Xy { x: label.width, y: 1 } };
            assert(rect == zones[i as int].0);
            let ghost prev = *mouse_map;
            mouse_map.set(rect, variant.mouse_zone());
            x = x + label.width;
            i = i + 1;
            assert forall|xx: int, yy: int| mouse_map.in_map(xx, yy) implies #[trigger] mouse_map.zone_at(
                xx,
                yy,
            ) == zones_applied(zones.take(i as int), xx, yy, old(mouse_map).zone_at(xx, yy)) by {
                assert(zones.take(i as int).drop_last() =~= zones.take(i - 1));
                assert(prev.zone_at(xx, yy) == zones_applied(
                    zones.take(i - 1),
                    xx,
                    yy,
                    old(mouse_map).zone_at(xx, yy),
                ));
            }
        }
        assert(zones.take(i as int) =~= zones);
    }

    /// Draws the selector with its left end at `origin`, highlighting the clock source that
    /// the data model holds.
    pub fn paint_at(&self, model: &DataModel, origin: Xy, canvas: &mut Canvas)
        requires
            model.wf(),
        ensures
            final(canvas).queued() == old(canvas).queued() + selector_commands(
                origin,
                model.spec_clock_src(),
            ),
    {
        canvas.move_to(origin);
        let selected = model.clock_src();
        let items = ClockSrc::all();
        let ghost start = canvas.queued();
        let mut i: usize = 0;
        while i < items.len()
            invariant
                items@ == all_clock_srcs(),
                selected == model.spec_clock_src(),
                i <= items@.len(),
                start == old(canvas).queued().push(Command::MoveTo(origin)),
                canvas.queued() == start + entries_commands(i as nat, selected),
            decreases items@.len() - i,
        {
            let variant = items[i];
            if i != 0 {
                canvas.write(sep().val);
            }
            if variant == selected {
                canvas.set_style(Style::Selected);
            }
            canvas.write(variant.label().val);
            canvas.reset_style();
            i = i + 1;
            assert(canvas.queued() =~= start + entries_commands(i as nat, selected));
        }
        assert(canvas.queued() =~= old(canvas).queued() + selector_commands(origin, selected));
    }
}

/// The mouse zones of the clock source selector lie on its row, inside its width, and do not
/// overlap: a click selects at most one clock source.
pub proof fn lemma_selector_zones_disjoint(origin: Xy, x: int, y: int)
    requires
        origin.x + 14 <= u16::MAX,
    ensures
        forall|i: int|
            0 <= i < selector_zones(origin).len() ==> #[trigger] selector_zones(origin)[i].0.covers(x, y)
                ==> (Rect { top_left: origin, size: Xy { x: 14, y: 1 } }).covers(x, y),
        !(selector_zones(origin)[0].0.covers(x, y) && selector_zones(origin)[1].0.covers(x, y)),
        selector_zones(origin).len() == 2,
        selector_zones(origin)[0].1 == Zone::ClockSrcBuiltin,
        selector_zones(origin)[1].1 == Zone::ClockSrcMidi,
{
    lemma_clock_src_offsets();
}

/// A click on the selector with its left end at `origin` hits the zone of the label under
/// it, and nothing else changes the zone of a cell.
pub proof fn lemma_selector_click(origin: Xy, x: int, y: int, prior: Option<Zone>)
    requires
        origin.x + 14 <= u16::MAX,
    ensures
        zones_applied(selector_zones(origin), x, y, prior) == if y == origin.y && origin.x + 10 <= x
            < origin.x + 14 {
            Some(Zone::ClockSrcMidi)
        } else if y == origin.y && origin.x <= x < origin.x + 7 {
            Some(Zone::ClockSrcBuiltin)
        } else {
            prior
        },
{
    lemma_clock_src_offsets();
    let z = selector_zones(origin);
    assert(z.len() == 2);
    assert(z[0] == (Rect { top_left: origin, size: Xy { x: 7, y: 1 } }, Zone::ClockSrcBuiltin));
    assert(z[1] == (
        Rect { top_left: Xy { x: (origin.x + 10) as u16, y: origin.y }, size: Xy { x: 4, y: 1 } },
        Zone::ClockSrcMidi,
    ));
    assert(z.drop_last().drop_last().len() == 0);
    assert(z.drop_last().last() == z[0]);
    assert(zones_applied(z.drop_last().drop_last(), x, y, prior) == prior);
    assert(zones_applied(z.drop_last(), x, y, prior) == if z[0].0.covers(x, y) {
        Some(z[0].1)
    } else {
        prior
    });
}

} // verus!
