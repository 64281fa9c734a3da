pub mod automaton;
pub mod bulb;
pub mod frame;
pub mod selector;
pub mod stack;
pub mod text;
pub mod void;

use self::automaton::grid_commands;
use self::bulb::bulb_commands;
use self::frame::{border_commands, bulb_origin, child_area, frame_min_size, frame_size_around, Frame};
use self::selector::{selector_commands, selector_zones};
use self::stack::{grown, remaining_area, Dir, Direction, Hoz, Stack, Vert};
use self::text::text_commands;
use crate::datamodel::DataModel;
use crate::ui::canvas::{Canvas, Command};
use crate::ui::mouse::{lemma_zones_applied_concat, zones_applied, Zone, ZoneMap};
use crate::ui::util::{Rect, WStr, Xy};
use vstd::prelude::*;

verus! {

/// A part of the screen layout.
pub enum Widget {
    Void(void::Void),
    Text(text::Text),
    Bulb(bulb::Bulb),
    Automaton(automaton::Automaton),
    Selector(selector::Selector),
    Frame(Box<Frame>),
    Stack(Stack),
}

/// The parts of the screen that are redrawn on their own when the data model changes.
#[derive(Clone, Copy, Debug, PartialEq, Eq, Structural)]
pub enum Part {
    Automaton,
    ClockIndicator,
    ClockSrcSelector,
}

/// Whether a component of size `size` fits in `available`.
pub open spec fn fits(available: Rect, size: Xy) -> bool {
    size.x <= available.size.x && size.y <= available.size.y
}

/// The placement of a component of fixed size `size` in `available`.
pub open spec fn fixed(available: Rect, size: Xy) -> Option<Xy> {
    if fits(available, size) {
        Some(size)
    } else {
        None
    }
}

/// Whether everything (`None`) or the part `part` of a drawing is drawn.
pub open spec fn draws(only: Option<Part>, part: Part) -> bool {
    only is None || only == Some(part)
}

/// The space `w` takes when placed at the top left of `available`, or `None` if it does not fit.
pub open spec fn widget_size(w: Widget, model: DataModel, available: Rect) -> Option<Xy>
    decreases w,
{
    match w {
        Widget::Void(v) => fixed(available, v.0),
        Widget::Text(t) => fixed(available, t.spec_size()),
        Widget::Bulb(b) => fixed(available, b.spec_size()),
        Widget::Automaton(a) => fixed(available, a.spec_size(model)),
        Widget::Selector(s) => fixed(available, s.spec_size()),
        Widget::Frame(f) => frame_size(*f, model, available),
        Widget::Stack(s) => stack_size(s.children@, s.dir, model, available, Xy { x: 0, y: 0 }),
    }
}

/// The space a frame takes: the border around its child, at least its smallest size.
pub open spec fn frame_size(f: Frame, model: DataModel, available: Rect) -> Option<Xy>
    decreases f,
{
    let min = frame_min_size(f.title, f.bulb is Some);
    if !fits(available, min) {
        None
    } else {
        match widget_size(f.child, model, child_area(available)) {
            None => None,
            Some(child_used) => Some(frame_size_around(min, child_used)),
        }
    }
}

/// The space the stack children `children` take, each placed in what the ones before left,
/// when those before took `used`; `None` as soon as one does not fit.
pub open spec fn stack_size(
    children: Seq<Widget>,
    dir: Direction,
    model: DataModel,
    available: Rect,
    used: Xy,
) -> Option<Xy>
    decreases children,
{
    if children.len() == 0 {
        Some(used)
    } else {
        match widget_size(children[0], model, remaining_area(dir, available, used)) {
            None => None,
            Some(child_used) => stack_size(
                children.drop_first(),
                dir,
                model,
                available,
                grown(dir, used, child_used),
            ),
        }
    }
}

/// Every nested frame title fits on a terminal line, and every selector is the clock
/// source selector.
pub open spec fn widget_wf(w: Widget) -> bool
    decreases w,
{
    match w {
        Widget::Selector(s) => s.wf(),
        Widget::Frame(f) => frame_wf(*f),
        Widget::Stack(s) => stack_wf(s.children@),
        _ => true,
    }
}

/// The title of the frame and everything inside fit.
pub open spec fn frame_wf(f: Frame) -> bool
    decreases f,
{
    f.title_fits() && widget_wf(f.child)
}

/// Every child of a stack is well formed.
pub open spec fn stack_wf(children: Seq<Widget>) -> bool
    decreases children,
{
    children.len() == 0 || (widget_wf(children[0]) && stack_wf(children.drop_first()))
}

/// The mouse zones that placing `w` in `available` sets, in the order it sets them.
pub open spec fn zone_writes(w: Widget, model: DataModel, available: Rect) -> Seq<(Rect, Zone)>
    decreases w,
{
    match w {
        Widget::Selector(s) => if fits(available, s.spec_size()) {
            selector_zones(available.top_left)
        } else {
            Seq::empty()
        },
        Widget::Frame(f) => frame_zone_writes(*f, model, available),
        Widget::Stack(s) => stack_zone_writes(
            s.children@,
            s.dir,
            model,
            available,
            Xy { x: 0, y: 0 },
        ),
        _ => Seq::empty(),
    }
}

/// The mouse zones that placing a frame sets: those of its child, if the frame has room.
pub open spec fn frame_zone_writes(f: Frame, model: DataModel, available: Rect) -> Seq<(Rect, Zone)>
    decreases f,
{
    if fits(available, frame_min_size(f.title, f.bulb is Some)) {
        zone_writes(f.child, model, child_area(available))
    } else {
        Seq::empty()
    }
}

/// The mouse zones that placing the stack children `children` sets, up to the first that
/// does not fit.
pub open spec fn stack_zone_writes(
    children: Seq<Widget>,
    dir: Direction,
    model: DataModel,
    available: Rect,
    used: Xy,
) -> Seq<(Rect, Zone)>
    decreases children,
{
    if children.len() == 0 {
        Seq::empty()
    } else {
        let area = remaining_area(dir, available, used);
        zone_writes(children[0], model, area) + match widget_size(children[0], model, area) {
            None => Seq::empty(),
            Some(child_used) => stack_zone_writes(
                children.drop_first(),
                dir,
                model,
                available,
                grown(dir, used, child_used),
            ),
        }
    }
}

/// The drawing of `w` placed in `available`: all of it if `only` is `None`, else just the part
/// `only`. Nothing is drawn of a component that does not fit.
pub open spec fn paint_commands(w: Widget, model: DataModel, available: Rect, only: Option<Part>) -> Seq<Command>
    decreases w,
{
    match w {
        Widget::Void(_) => Seq::empty(),
        Widget::Text(t) => if only is None && fits(available, t.spec_size()) {
            text_commands(t, available.top_left)
        } else {
            Seq::empty()
        },
        Widget::Bulb(b) => if draws(only, Part::ClockIndicator) && fits(available, b.spec_size()) {
            bulb_commands(model.spec_clock_indicator_lit(), available.top_left)
        } else {
            Seq::empty()
        },
        Widget::Automaton(a) => if draws(only, Part::Automaton) && fits(available, a.spec_size(model)) {
            grid_commands(model.automaton(), available.top_left)
        } else {
            Seq::empty()
        },
        Widget::Selector(s) => if draws(only, Part::ClockSrcSelector) && fits(
            available,
            s.spec_size(),
        ) {
            selector_commands(available.top_left, model.spec_clock_src())
        } else {
            Seq::empty()
        },
        Widget::Frame(f) => frame_paint_commands(*f, model, available, only),
        Widget::Stack(s) => if stack_size(s.children@, s.dir, model, available, Xy { x: 0, y: 0 }) is Some {
            stack_paint_commands(s.children@, s.dir, model, available, Xy { x: 0, y: 0 }, only)
        } else {
            Seq::empty()
        },
    }
}

/// The part of a frame occupying `rect` that is drawn: the whole border if `only` is `None`,
/// the bulb if `only` asks for the clock indicator.
pub open spec fn frame_own_commands(f: Frame, model: DataModel, rect: Rect, only: Option<Part>) -> Seq<Command> {
    if only is None {
        border_commands(f.title, f.bulb, model.spec_clock_indicator_lit(), rect)
    } else if only == Some(Part::ClockIndicator) && f.bulb is Some {
        bulb_commands(model.spec_clock_indicator_lit(), bulb_origin(rect))
    } else {
        Seq::empty()
    }
}

/// The drawing of a frame placed in `available`: its border, then its child.
pub open spec fn frame_paint_commands(f: Frame, model: DataModel, available: Rect, only: Option<Part>) -> Seq<Command>
    decreases f,
{
    match frame_size(f, model, available) {
        None => Seq::empty(),
        Some(size) => frame_own_commands(f, model, Rect { top_left: available.top_left, size }, only)
            + paint_commands(f.child, model, child_area(available), only),
    }
}

/// The drawing of the stack children `children`, each in what the ones before left.
pub open spec fn stack_paint_commands(
    children: Seq<Widget>,
    dir: Direction,
    model: DataModel,
    available: Rect,
    used: Xy,
    only: Option<Part>,
) -> Seq<Command>
    decreases children,
{
    if children.len() == 0 {
        Seq::empty()
    } else {
        let area = remaining_area(dir, available, used);
        paint_commands(children[0], model, area, only) + match widget_size(children[0], model, area) {
            None => Seq::empty(),
            Some(child_used) => stack_paint_commands(
                children.drop_first(),
                dir,
                model,
                available,
                grown(dir, used, child_used),
                only,
            ),
        }
    }
}

/// Whether `r` lies on a terminal, whose coordinates are 16-bit.
pub open spec fn on_terminal(r: Rect) -> bool {
    r.spec_right() <= u16::MAX && r.spec_bottom() <= u16::MAX
}

/// Every child of a well formed stack is well formed.
pub proof fn lemma_stack_wf(children: Seq<Widget>, i: int)
    requires
        stack_wf(children),
        0 <= i < children.len(),
    ensures
        widget_wf(children[i]),
    decreases children.len(),
{
    if i > 0 {
        lemma_stack_wf(children.drop_first(), i - 1);
    }
}

/// One more step of `stack_size`, `stack_zone_writes` and `stack_paint_commands` over the
/// children from `i` on.
pub proof fn lemma_stack_step(children: Seq<Widget>, i: int)
    requires
        0 <= i < children.len(),
    ensures
        children.subrange(i, children.len() as int)[0] == children[i],
        children.subrange(i, children.len() as int).drop_first() == children.subrange(
            i + 1,
            children.len() as int,
        ),
{
    assert(children.subrange(i, children.len() as int).drop_first() =~= children.subrange(
        i + 1,
        children.len() as int,
    ));
}

/// The placement of a component of fixed size `size` in `available`.
fn fixed_placement(available: Rect, size: Xy) -> (r: Option<Xy>)
    ensures
        r == fixed(available, size),
{
    if available.size.x >= size.x && available.size.y >= size.y {
        Some(size)
    } else {
        None
    }
}

/// The space `w` takes when placed in `available`.
pub fn measure_widget(w: &Widget, model: &DataModel, available: Rect) -> (r: Option<Xy>)
    requires
        widget_wf(*w),
        model.wf(),
        on_terminal(available),
    ensures
        r == widget_size(*w, *model, available),
        r matches Some(used) ==> fits(available, used),
    decreases w,
{
    match w {
        Widget::Void(v) => fixed_placement(available, v.0),
        Widget::Text(t) => fixed_placement(available, t.size()),
        Widget::Bulb(b) => fixed_placement(available, b.size()),
        Widget::Automaton(a) => fixed_placement(available, a.size(model)),
        Widget::Selector(s) => fixed_placement(available, s.size()),
        Widget::Frame(f) => measure_frame(f, model, available),
        Widget::Stack(s) => measure_stack(s, model, available),
    }
}

/// The space a frame takes when placed in `available`.
pub fn measure_frame(f: &Frame, model: &DataModel, available: Rect) -> (r: Option<Xy>)
    requires
        frame_wf(*f),
        model.wf(),
        on_terminal(available),
    ensures
        r == frame_size(*f, *model, available),
        r matches Some(used) ==> fits(available, used),
        r matches Some(used) ==> used.x >= frame_min_size(f.title, f.bulb is Some).x && used.y >= 2,
    decreases f,
{
    let min = f.min_size();
    if available.size.x < min.x || available.size.y < min.y {
        return None;
    }
    let child_available = Rect {
        top_left: available.top_left + Xy { x: 2, y: 1 },
        size: available.size - Xy { x: 4, y: 2 },
    };
    assert(child_available == child_area(available));
    match measure_widget(&f.child, model, child_available) {
        None => None,
        Some(child_used) => Some(
            Xy {
                x: if min.x >= child_used.x + 4 { min.x } else { child_used.x + 4 },
                y: if min.y >= child_used.y + 2 { min.y } else { child_used.y + 2 },
            },
        ),
    }
}

/// The space a stack takes when placed in `available`.
pub fn measure_stack(s: &Stack, model: &DataModel, available: Rect) -> (r: Option<Xy>)
    requires
        stack_wf(s.children@),
        model.wf(),
        on_terminal(available),
    ensures
        r == stack_size(s.children@, s.dir, *model, available, Xy { x: 0, y: 0 }),
        r matches Some(used) ==> fits(available, used),
    decreases s,
{
    let ghost ch = s.children@;
    let n = s.children.len();
    let mut used = Xy::zero();
    let mut i: usize = 0;
    assert(ch.subrange(0, n as int) =~= ch);
    while i < n
        invariant
            ch == s.children@,
            n == ch.len(),
            i <= n,
            stack_wf(ch),
            model.wf(),
            on_terminal(available),
            fits(available, used),
            stack_size(ch, s.dir, *model, available, Xy { x: 0, y: 0 }) == stack_size(
                ch.subrange(i as int, n as int),
                s.dir,
                *model,
                available,
                used,
            ),
        decreases n - i,
    {
        proof {
            lemma_stack_wf(ch, i as int);
            lemma_stack_step(ch, i as int);
        }
        let area = match s.dir {
            Direction::Hoz => Hoz::available_for_remaining_children(available, used),
            Direction::Vert => Vert::available_for_remaining_children(available, used),
        };
        match measure_widget(&s.children[i], model, area) {
            None => {
                return None;
            },
            Some(child_used) => {
                match s.dir {
                    Direction::Hoz => Hoz::update_used_so_far(&mut used, child_used),
                    Direction::Vert => Vert::update_used_so_far(&mut used, child_used),
                }
            },
        }
        i = i + 1;
    }
    proof {
        assert(ch.subrange(n as int, n as int).len() == 0);
    }
    Some(used)
}

/// Whether `r` lies inside the screen that `mouse_map` covers.
pub open spec fn within_map(r: Rect, mouse_map: ZoneMap) -> bool {
    r.spec_right() <= mouse_map.spec_width() && r.spec_bottom() <= mouse_map.spec_height()
}

/// Whether `after` is `before` with the rectangles of `writes` put into their zones in order.
pub open spec fn map_after(before: ZoneMap, after: ZoneMap, writes: Seq<(Rect, Zone)>) -> bool {
    &&& after.wf()
    &&& after.spec_width() == before.spec_width()
    &&& after.spec_height() == before.spec_height()
    &&& forall|x: int, y: int|
        after.in_map(x, y) ==> #[trigger] after.zone_at(x, y) == zones_applied(
            writes,
            x,
            y,
            before.zone_at(x, y),
        )
}

/// Placing nothing leaves the map as it was, and placings one after the other add up.
proof fn lemma_map_after_chain(
    m0: ZoneMap,
    m1: ZoneMap,
    m2: ZoneMap,
    w1: Seq<(Rect, Zone)>,
    w2: Seq<(Rect, Zone)>,
)
    requires
        map_after(m0, m1, w1),
        map_after(m1, m2, w2),
    ensures
        map_after(m0, m2, w1 + w2),
{
    assert forall|x: int, y: int| m2.in_map(x, y) implies #[trigger] m2.zone_at(x, y) == zones_applied(
        w1 + w2,
        x,
        y,
        m0.zone_at(x, y),
    ) by {
        lemma_zones_applied_concat(w1, w2, x, y, m0.zone_at(x, y));
        assert(m1.in_map(x, y));
    }
}

/// Places `w` in `available`, putting the labels of its selectors into their mouse zones, and
/// returns the space it takes, or `None` if it does not fit.
pub fn place_widget(w: &Widget, model: &DataModel, available: Rect, mouse_map: &mut ZoneMap) -> (r: Option<Xy>)
    requires
        widget_wf(*w),
        model.wf(),
        old(mouse_map).wf(),
        within_map(available, *old(mouse_map)),
    ensures
        r == widget_size(*w, *model, available),
        r matches Some(used) ==> fits(available, used),
        map_after(*old(mouse_map), *final(mouse_map), zone_writes(*w, *model, available)),
    decreases w,
{
    proof {
        mouse_map.lemma_wf();
    }
    match w {
        Widget::Selector(s) => {
            let r = fixed_placement(available, s.size());
            if r.is_some() {
                s.set_zones(available.top_left, mouse_map);
            }
            r
        },
        Widget::Frame(f) => place_frame(f, model, available, mouse_map),
        Widget::Stack(s) => place_stack(s, model, available, mouse_map),
        _ => {
            proof {
                assert(zone_writes(*w, *model, available) =~= Seq::<(Rect, Zone)>::empty());
            }
            measure_widget(w, model, available)
        },
    }
}

/// Places a frame's child inside its border.
pub fn place_frame(f: &Frame, model: &DataModel, available: Rect, mouse_map: &mut ZoneMap) -> (r: Option<Xy>)
    requires
        frame_wf(*f),
        model.wf(),
        old(mouse_map).wf(),
        within_map(available, *old(mouse_map)),
    ensures
        r == frame_size(*f, *model, available),
        r matches Some(used) ==> fits(available, used),
        map_after(*old(mouse_map), *final(mouse_map), frame_zone_writes(*f, *model, available)),
    decreases f,
{
    proof {
        mouse_map.lemma_wf();
    }
    let min = f.min_size();
    if available.size.x < min.x || available.size.y < min.y {
        return None;
    }
    let child_available = Rect {
        top_left: available.top_left + Xy { x: 2, y: 1 },
        size: available.size - Xy { x: 4, y: 2 },
    };
    assert(child_available == child_area(available));
    match place_widget(&f.child, model, child_available, mouse_map) {
        None => None,
        Some(child_used) => Some(
            Xy {
                x: if min.x >= child_used.x + 4 { min.x } else { child_used.x + 4 },
                y: if min.y >= child_used.y + 2 { min.y } else { child_used.y + 2 },
            },
        ),
    }
}

/// Places the children of a stack one after the other.
pub fn place_stack(s: &Stack, model: &DataModel, available: Rect, mouse_map: &mut ZoneMap) -> (r: Option<Xy>)
    requires
        stack_wf(s.children@),
        model.wf(),
        old(mouse_map).wf(),
        within_map(available, *old(mouse_map)),
    ensures
        r == stack_size(s.children@, s.dir, *model, available, Xy { x: 0, y: 0 }),
        r matches Some(used) ==> fits(available, used),
        map_after(
            *old(mouse_map),
            *final(mouse_map),
            stack_zone_writes(s.children@, s.dir, *model, available, Xy { x: 0, y: 0 }),
        ),
    decreases s,
{
    proof {
        mouse_map.lemma_wf();
    }
    let ghost ch = s.children@;
    let ghost start = *mouse_map;
    let ghost zero = Xy { x: 0, y: 0 };
    let n = s.children.len();
    let mut used = Xy::zero();
    let mut i: usize = 0;
    let ghost mut done: Seq<(Rect, Zone)> = Seq::empty();
    assert(ch.subrange(0, n as int) =~= ch);
    assert(done + stack_zone_writes(ch, s.dir, *model, available, zero) =~= stack_zone_writes(
        ch,
        s.dir,
        *model,
        available,
        zero,
    ));
    assert(map_after(start, *mouse_map, done));
    while i < n
        invariant
            ch == s.children@,
            n == ch.len(),
            i <= n,
            stack_wf(ch),
            model.wf(),
            start == *old(mouse_map),
            zero == (Xy { x: 0, y: 0 }),
            start.wf(),
            within_map(available, start),
            start.spec_width() <= u16::MAX,
            start.spec_height() <= u16::MAX,
            fits(available, used),
            stack_size(ch, s.dir, *model, available, zero) == stack_size(
                ch.subrange(i as int, n as int),
                s.dir,
                *model,
                available,
                used,
            ),
            stack_zone_writes(ch, s.dir, *model, available, zero) == done + stack_zone_writes(
                ch.subrange(i as int, n as int),
                s.dir,
                *model,
                available,
                used,
            ),
            map_after(start, *mouse_map, done),
        decreases n - i,
    {
        proof {
            lemma_stack_wf(ch, i as int);
            lemma_stack_step(ch, i as int);
        }
        let area = match s.dir {
            Direction::Hoz => Hoz::available_for_remaining_children(available, used),
            Direction::Vert => Vert::available_for_remaining_children(available, used),
        };
        let ghost before = *mouse_map;
        let placed = place_widget(&s.children[i], model, area, mouse_map);
        proof {
            lemma_map_after_chain(start, before, *mouse_map, done, zone_writes(ch[i as int], *model, area));
            done = done + zone_writes(ch[i as int], *model, area);
        }
        match placed {
            None => {
                proof {
                    assert(done + Seq::<(Rect, Zone)>::empty() =~= done);
                    assert(stack_size(ch.subrange(i as int, n as int), s.dir, *model, available, used) is None);
                }
                return None;
            },
            Some(child_used) => {
                match s.dir {
                    Direction::Hoz => Hoz::update_used_so_far(&mut used, child_used),
                    Direction::Vert => Vert::update_used_so_far(&mut used, child_used),
                }
            },
        }
        i = i + 1;
        proof {
            assert(stack_zone_writes(ch, s.dir, *model, available, zero) =~= done + stack_zone_writes(
                ch.subrange(i as int, n as int),
                s.dir,
                *model,
                available,
                used,
            ));
        }
    }
    proof {
        assert(ch.subrange(n as int, n as int).len() == 0);
        assert(done + Seq::<(Rect, Zone)>::empty() =~= done);
    }
    Some(used)
}

/// Draws `w` placed in `available`: all of it if `only` is `None`, else just the part `only`.
pub fn paint_widget(w: &Widget, model: &DataModel, available: Rect, only: Option<Part>, canvas: &mut Canvas)
    requires
        widget_wf(*w),
        model.wf(),
        on_terminal(available),
    ensures
        final(canvas).queued() == old(canvas).queued() + paint_commands(*w, *model, available, only),
    decreases w,
{
    let all = only.is_none();
    match w {
        Widget::Void(_) => {
            assert(old(canvas).queued() + Seq::<Command>::empty() =~= old(canvas).queued());
        },
        Widget::Text(t) => {
            if all && fixed_placement(available, t.size()).is_some() {
                t.paint_at(available.top_left, canvas);
            } else {
                assert(old(canvas).queued() + Seq::<Command>::empty() =~= old(canvas).queued());
            }
        },
        Widget::Bulb(b) => {
            let wanted = match only {
                None => true,
                Some(Part::ClockIndicator) => true,
                Some(_) => false,
            };
            if wanted && fixed_placement(available, b.size()).is_some() {
                b.paint_at(model, available.top_left, canvas);
            } else {
                assert(old(canvas).queued() + Seq::<Command>::empty() =~= old(canvas).queued());
            }
        },
        Widget::Automaton(a) => {
            let wanted = match only {
                None => true,
                Some(Part::Automaton) => true,
                Some(_) => false,
            };
            if wanted && fixed_placement(available, a.size(model)).is_some() {
                a.paint_at(model, available.top_left, canvas);
            } else {
                assert(old(canvas).queued() + Seq::<Command>::empty() =~= old(canvas).queued());
            }
        },
        Widget::Selector(s) => {
            let wanted = match only {
                None => true,
                Some(Part::ClockSrcSelector) => true,
                Some(_) => false,
            };
            if wanted && fixed_placement(available, s.size()).is_some() {
                s.paint_at(model, available.top_left, canvas);
            } else {
                assert(old(canvas).queued() + Seq::<Command>::empty() =~= old(canvas).queued());
            }
        },
        Widget::Frame(f) => paint_frame(f, model, available, only, canvas),
        Widget::Stack(s) => paint_stack(s, model, available, only, canvas),
    }
}

/// Draws a frame placed in `available`: its border, then its child.
pub fn paint_frame(f: &Frame, model: &DataModel, available: Rect, only: Option<Part>, canvas: &mut Canvas)
    requires
        frame_wf(*f),
        model.wf(),
        on_terminal(available),
    ensures
        final(canvas).queued() == old(canvas).queued() + frame_paint_commands(
            *f,
            *model,
            available,
            only,
        ),
    decreases f,
{
    match measure_frame(f, model, available) {
        None => {
            assert(old(canvas).queued() + Seq::<Command>::empty() =~= old(canvas).queued());
        },
        Some(size) => {
            let rect = Rect { top_left: available.top_left, size };
            match only {
                None => f.paint_border(model, rect, canvas),
                Some(Part::ClockIndicator) => {
                    match &f.bulb {
                        Some(b) => b.paint_at(model, rect.top_right().sub_x(4), canvas),
                        None => {
                            assert(old(canvas).queued() + Seq::<Command>::empty() =~= old(
                                canvas,
                            ).queued());
                        },
                    }
                },
                Some(_) => {
                    assert(old(canvas).queued() + Seq::<Command>::empty() =~= old(canvas).queued());
                },
            }
            let ghost own_end = canvas.queued();
            assert(own_end == old(canvas).queued() + frame_own_commands(*f, *model, rect, only));
            let child_available = Rect {
                top_left: available.top_left + Xy { x: 2, y: 1 },
                size: available.size - Xy { x: 4, y: 2 },
            };
            assert(child_available == child_area(available));
            paint_widget(&f.child, model, child_available, only, canvas);
            assert(canvas.queued() =~= old(canvas).queued() + frame_paint_commands(
                *f,
                *model,
                available,
                only,
            ));
        },
    }
}

/// Draws the children of a stack placed in `available`, if the stack fits there.
pub fn paint_stack(s: &Stack, model: &DataModel, available: Rect, only: Option<Part>, canvas: &mut Canvas)
    requires
        stack_wf(s.children@),
        model.wf(),
        on_terminal(available),
    ensures
        final(canvas).queued() == old(canvas).queued() + paint_commands(
            Widget::Stack(*s),
            *model,
            available,
            only,
        ),
    decreases s,
{
    if measure_stack(s, model, available).is_none() {
        assert(old(canvas).queued() + Seq::<Command>::empty() =~= old(canvas).queued());
        return ;
    }
    let ghost ch = s.children@;
    let ghost zero = Xy { x: 0, y: 0 };
    let n = s.children.len();
    let mut used = Xy::zero();
    let mut i: usize = 0;
    assert(ch.subrange(0, n as int) =~= ch);
    assert(old(canvas).queued() + stack_paint_commands(ch, s.dir, *model, available, zero, only)
        =~= old(canvas).queued() + Seq::<Command>::empty() + stack_paint_commands(
        ch,
        s.dir,
        *model,
        available,
        zero,
        only,
    ));
    while i < n
        invariant
            ch == s.children@,
            zero == (Xy { x: 0, y: 0 }),
            n == ch.len(),
            i <= n,
            stack_wf(ch),
            model.wf(),
            on_terminal(available),
            fits(available, used),
            stack_size(ch.subrange(i as int, n as int), s.dir, *model, available, used) is Some,
            old(canvas).queued() + stack_paint_commands(ch, s.dir, *model, available, zero, only)
                == canvas.queued() + stack_paint_commands(
                ch.subrange(i as int, n as int),
                s.dir,
                *model,
                available,
                used,
                only,
            ),
        decreases n - i,
    {
        proof {
            lemma_stack_wf(ch, i as int);
            lemma_stack_step(ch, i as int);
        }
        let area = match s.dir {
            Direction::Hoz => Hoz::available_for_remaining_children(available, used),
            Direction::Vert => Vert::available_for_remaining_children(available, used),
        };
        let ghost before = canvas.queued();
        paint_widget(&s.children[i], model, area, only, canvas);
        let child_used = measure_widget(&s.children[i], model, area).unwrap();
        match s.dir {
            Direction::Hoz => Hoz::update_used_so_far(&mut used, child_used),
            Direction::Vert => Vert::update_used_so_far(&mut used, child_used),
        }
        i = i + 1;
        assert(before + paint_commands(ch[i - 1], *model, area, only) + stack_paint_commands(
            ch.subrange(i as int, n as int),
            s.dir,
            *model,
            available,
            used,
            only,
        ) =~= before + (paint_commands(ch[i - 1], *model, area, only) + stack_paint_commands(
            ch.subrange(i as int, n as int),
            s.dir,
            *model,
            available,
            used,
            only,
        )));
    }
    assert(ch.subrange(n as int, n as int).len() == 0);
    assert(canvas.queued() + Seq::<Command>::empty() =~= canvas.queued());
}

/// Something that can be laid out on the screen and drawn.
pub trait Component {
    /// The component's own invariant.
    spec fn well_formed(&self) -> bool;

    /// Lays the component out at the top left of `available`, putting its clickable parts into
    /// their mouse zones; returns the space it takes, or `None` if it does not fit.
    fn place(&self, model: &DataModel, available: Rect, mouse_map: &mut ZoneMap) -> (r: Option<Xy>)
        requires
            self.well_formed(),
            model.wf(),
            old(mouse_map).wf(),
            within_map(available, *old(mouse_map)),
        ensures
            r matches Some(used) ==> fits(available, used),
            final(mouse_map).wf(),
            final(mouse_map).spec_width() == old(mouse_map).spec_width(),
            final(mouse_map).spec_height() == old(mouse_map).spec_height(),
    ;

    /// Draws the component laid out at the top left of `available`.
    fn paint(&self, model: &DataModel, available: Rect, canvas: &mut Canvas)
        requires
            self.well_formed(),
            model.wf(),
            on_terminal(available),
    ;
}

impl Component for Widget {
    open spec fn well_formed(&self) -> bool {
        widget_wf(*self)
    }

    fn place(&self, model: &DataModel, available: Rect, mouse_map: &mut ZoneMap) -> (r: Option<Xy>)
        ensures
            r == widget_size(*self, *model, available),
            map_after(*old(mouse_map), *final(mouse_map), zone_writes(*self, *model, available)),
    {
        place_widget(self, model, available, mouse_map)
    }

    fn paint(&self, model: &DataModel, available: Rect, canvas: &mut Canvas)
        ensures
            final(canvas).queued() == old(canvas).queued() + paint_commands(
                *self,
                *model,
                available,
                None,
            ),
    {
        paint_widget(self, model, available, None, canvas)
    }
}

impl Component for Frame {
    open spec fn well_formed(&self) -> bool {
        frame_wf(*self)
    }

    fn place(&self, model: &DataModel, available: Rect, mouse_map: &mut ZoneMap) -> (r: Option<Xy>)
        ensures
            r == frame_size(*self, *model, available),
            map_after(*old(mouse_map), *final(mouse_map), frame_zone_writes(*self, *model, available)),
    {
        place_frame(self, model, available, mouse_map)
    }

    fn paint(&self, model: &DataModel, available: Rect, canvas: &mut Canvas)
        ensures
            final(canvas).queued() == old(canvas).queued() + frame_paint_commands(
                *self,
                *model,
                available,
                None,
            ),
    {
        paint_frame(self, model, available, None, canvas)
    }
}

impl Component for Stack {
    open spec fn well_formed(&self) -> bool {
        stack_wf(self.children@)
    }

    fn place(&self, model: &DataModel, available: Rect, mouse_map: &mut ZoneMap) -> (r: Option<Xy>)
        ensures
            r == stack_size(self.children@, self.dir, *model, available, Xy { x: 0, y: 0 }),
            map_after(
                *old(mouse_map),
                *final(mouse_map),
                stack_zone_writes(self.children@, self.dir, *model, available, Xy { x: 0, y: 0 }),
            ),
    {
        place_stack(self, model, available, mouse_map)
    }

    fn paint(&self, model: &DataModel, available: Rect, canvas: &mut Canvas)
        ensures
            final(canvas).queued() == old(canvas).queued() + paint_commands(
                Widget::Stack(*self),
                *model,
                available,
                None,
            ),
    {
        paint_stack(self, model, available, None, canvas)
    }
}

impl Component for void::Void {
    open spec fn well_formed(&self) -> bool {
        true
    }

    fn place(&self, model: &DataModel, available: Rect, mouse_map: &mut ZoneMap) -> (r: Option<Xy>)
        ensures
            r == fixed(available, self.0),
            *final(mouse_map) == *old(mouse_map),
    {
        fixed_placement(available, self.0)
    }

    fn paint(&self, model: &DataModel, available: Rect, canvas: &mut Canvas)
        ensures
            final(canvas).queued() == old(canvas).queued(),
    {
    }
}

impl Component for text::Text {
    open spec fn well_formed(&self) -> bool {
        true
    }

    fn place(&self, model: &DataModel, available: Rect, mouse_map: &mut ZoneMap) -> (r: Option<Xy>)
        ensures
            r == fixed(available, self.spec_size()),
            *final(mouse_map) == *old(mouse_map),
    {
        fixed_placement(available, self.size())
    }

    fn paint(&self, model: &DataModel, available: Rect, canvas: &mut Canvas)
        ensures
            final(canvas).queued() == old(canvas).queued() + paint_commands(
                Widget::Text(*self),
                *model,
                available,
                None,
            ),
    {
        paint_widget(&Widget::Text(*self), model, available, None, canvas)
    }
}

impl Component for bulb::Bulb {
    open spec fn well_formed(&self) -> bool {
        true
    }

    fn place(&self, model: &DataModel, available: Rect, mouse_map: &mut ZoneMap) -> (r: Option<Xy>)
        ensures
            r == fixed(available, self.spec_size()),
            *final(mouse_map) == *old(mouse_map),
    {
        fixed_placement(available, self.size())
    }

    fn paint(&self, model: &DataModel, available: Rect, canvas: &mut Canvas)
        ensures
            final(canvas).queued() == old(canvas).queued() + paint_commands(
                Widget::Bulb(*self),
                *model,
                available,
                None,
            ),
    {
        paint_widget(&Widget::Bulb(*self), model, available, None, canvas)
    }
}

impl Component for automaton::Automaton {
    open spec fn well_formed(&self) -> bool {
        true
    }

    fn place(&self, model: &DataModel, available: Rect, mouse_map: &mut ZoneMap) -> (r: Option<Xy>)
        ensures
            r == fixed(available, self.spec_size(*model)),
            *final(mouse_map) == *old(mouse_map),
    {
        fixed_placement(available, self.size(model))
    }

    fn paint(&self, model: &DataModel, available: Rect, canvas: &mut Canvas)
        ensures
            final(canvas).queued() == old(canvas).queued() + paint_commands(
                Widget::Automaton(*self),
                *model,
                available,
                None,
            ),
    {
        paint_widget(&Widget::Automaton(*self), model, available, None, canvas)
    }
}

impl Component for selector::Selector {
    open spec fn well_formed(&self) -> bool {
        self.wf()
    }

    fn place(&self, model: &DataModel, available: Rect, mouse_map: &mut ZoneMap) -> (r: Option<Xy>)
        ensures
            r == fixed(available, self.spec_size()),
            map_after(
                *old(mouse_map),
                *final(mouse_map),
                zone_writes(Widget::Selector(*self), *model, available),
            ),
    {
        place_widget(&Widget::Selector(*self), model, available, mouse_map)
    }

    fn paint(&self, model: &DataModel, available: Rect, canvas: &mut Canvas)
        ensures
            final(canvas).queued() == old(canvas).queued() + paint_commands(
                Widget::Selector(*self),
                *model,
                available,
                None,
            ),
    {
        paint_widget(&Widget::Selector(*self), model, available, None, canvas)
    }
}

/// The stack of the source label and the clock source selector.
pub open spec fn is_src_row(w: Widget) -> bool {
    match w {
        Widget::Stack(s) => {
            &&& s.dir == Direction::Hoz
            &&& s.children@.len() == 2
            &&& s.children@[0] == Widget::Text(text::Text(WStr { val: "src: ", width: 5 }))
            &&& s.children@[1] matches Widget::Selector(sel) && sel.wf()
        },
        _ => false,
    }
}

/// The frame titled `CLOCK`, with the clock indicator in its border, around the source row.
pub open spec fn is_clock_frame(w: Widget) -> bool {
    match w {
        Widget::Frame(f) => {
            &&& f.title == WStr { val: "CLOCK", width: 5 }
            &&& f.bulb is Some
            &&& f.child matches Widget::Stack(col) && col.dir == Direction::Vert
                && col.children@.len() == 1 && is_src_row(col.children@[0])
        },
        _ => false,
    }
}

/// The main row: a gap of three columns, the automaton, a gap of four columns, and the
/// column holding the clock frame.
pub open spec fn is_main_row(w: Widget) -> bool {
    match w {
        Widget::Stack(s) => {
            &&& s.dir == Direction::Hoz
            &&& s.children@.len() == 4
            &&& s.children@[0] == Widget::Void(void::Void(Xy { x: 3, y: 1 }))
            &&& s.children@[1] is Automaton
            &&& s.children@[2] == Widget::Void(void::Void(Xy { x: 4, y: 1 }))
            &&& s.children@[3] matches Widget::Stack(col) && col.dir == Direction::Vert
                && col.children@.len() == 1 && is_clock_frame(col.children@[0])
        },
        _ => false,
    }
}

/// The screen layout: a blank row above the main row.
pub open spec fn is_default_layout(w: Widget) -> bool {
    match w {
        Widget::Stack(s) => {
            &&& s.dir == Direction::Vert
            &&& s.children@.len() == 2
            &&& s.children@[0] == Widget::Void(void::Void(Xy { x: 1, y: 1 }))
            &&& is_main_row(s.children@[1])
        },
        _ => false,
    }
}

/// The components of the screen.
pub struct Components {
    pub root: Widget,
}

impl Components {
    /// The screen layout: a blank row, then the automaton beside a frame titled `CLOCK` with
    /// the clock indicator in its border and the clock source selector inside.
    pub fn build() -> (r: Components)
        ensures
            widget_wf(r.root),
            is_default_layout(r.root),
    {
        let src_row = Widget::Stack(
            stack::new_hoz(
                vec![
                    Widget::Text(text::new(WStr { val: "src: ", width: 5 })),
                    Widget::Selector(selector::new()),
                ],
            ),
        );
        let clock_frame = frame::new(WStr { val: "CLOCK", width: 5 }).with_bulb(bulb::new()).containing(
            Widget::Stack(stack::new_vert(vec![src_row])),
        );
        let main_row = Widget::Stack(
            stack::new_hoz(
                vec![
                    Widget::Void(void::hoz(3)),
                    Widget::Automaton(automaton::new()),
                    Widget::Void(void::hoz(4)),
                    Widget::Stack(stack::new_vert(vec![Widget::Frame(Box::new(clock_frame))])),
                ],
            ),
        );
        let root = Widget::Stack(stack::new_vert(vec![Widget::Void(void::vert(1)), main_row]));
        proof {
            lemma_default_layout_wf(root);
        }
        Components { root }
    }
}

/// A stack whose every child is well formed is well formed.
pub proof fn lemma_stack_wf_intro(children: Seq<Widget>)
    requires
        forall|i: int| 0 <= i < children.len() ==> widget_wf(#[trigger] children[i]),
    ensures
        stack_wf(children),
    decreases children.len(),
{
    if children.len() > 0 {
        assert forall|i: int| 0 <= i < children.drop_first().len() implies widget_wf(
            #[trigger] children.drop_first()[i],
        ) by {
            assert(children.drop_first()[i] == children[i + 1]);
        }
        lemma_stack_wf_intro(children.drop_first());
    }
}

/// The screen layout is well formed.
pub proof fn lemma_default_layout_wf(w: Widget)
    requires
        is_default_layout(w),
    ensures
        widget_wf(w),
{
    let s = w->Stack_0;
    let row = s.children@[1];
    let rs = row->Stack_0;
    let col = rs.children@[3]->Stack_0;
    let fr = col.children@[0]->Frame_0;
    let inner = fr.child->Stack_0;
    let src = inner.children@[0]->Stack_0;
    assert(widget_wf(src.children@[0]));
    assert(widget_wf(src.children@[1]));
    lemma_stack_wf_intro(src.children@);
    lemma_stack_wf_intro(inner.children@);
    assert(widget_wf(fr.child));
    assert(frame_wf(*fr));
    assert(widget_wf(col.children@[0]));
    lemma_stack_wf_intro(col.children@);
    assert(widget_wf(rs.children@[0]));
    assert(widget_wf(rs.children@[1]));
    assert(widget_wf(rs.children@[2]));
    assert(widget_wf(rs.children@[3]));
    lemma_stack_wf_intro(rs.children@);
    assert(widget_wf(s.children@[0]));
    assert(widget_wf(s.children@[1]));
    lemma_stack_wf_intro(s.children@);
}

/// A placed component never takes more than the space it was given.
pub proof fn lemma_widget_fits(w: Widget, model: DataModel, available: Rect)
    requires
        widget_wf(w),
    ensures
        widget_size(w, model, available) matches Some(used) ==> fits(available, used),
    decreases w,
{
    match w {
        Widget::Frame(f) => lemma_frame_fits(*f, model, available),
        Widget::Stack(s) => lemma_stack_fits(s.children@, s.dir, model, available, Xy { x: 0, y: 0 }),
        _ => {},
    }
}

/// A placed frame never takes more than the space it was given.
pub proof fn lemma_frame_fits(f: Frame, model: DataModel, available: Rect)
    requires
        frame_wf(f),
    ensures
        frame_size(f, model, available) matches Some(used) ==> fits(available, used) && used.x
            >= frame_min_size(f.title, f.bulb is Some).x,
    decreases f,
{
    lemma_widget_fits(f.child, model, child_area(available));
}

/// Children of a stack placed after others took `used` leave the stack within its space.
pub proof fn lemma_stack_fits(children: Seq<Widget>, dir: Direction, model: DataModel, available: Rect, used: Xy)
    requires
        stack_wf(children),
        fits(available, used),
    ensures
        stack_size(children, dir, model, available, used) matches Some(total) ==> fits(available, total),
    decreases children,
{
    if children.len() > 0 {
        let area = remaining_area(dir, available, used);
        lemma_widget_fits(children[0], model, area);
        if let Some(child_used) = widget_size(children[0], model, area) {
            lemma_stack_fits(children.drop_first(), dir, model, available, grown(dir, used, child_used));
        }
    }
}

/// Where a frame that fits puts its bulb: on its top border, right of the title, inside
/// the frame.
pub proof fn lemma_bulb_in_border(f: Frame, model: DataModel, available: Rect)
    requires
        f.bulb is Some,
        frame_wf(f),
        on_terminal(available),
        frame_size(f, model, available) is Some,
    ensures
        ({
            let rect = Rect { top_left: available.top_left, size: frame_size(f, model, available)->0 };
            let bulb = Rect { top_left: bulb_origin(rect), size: Xy { x: bulb::WIDTH, y: 1 } };
            &&& bulb.top_left.y == rect.top_left.y
            &&& bulb.top_left.x >= rect.top_left.x + 4 + f.title.width
            &&& bulb.spec_right() + 2 == rect.spec_right()
        }),
{
    lemma_frame_fits(f, model, available);
}

/// The source row takes nineteen columns and a row: five for the label, fourteen for the
/// selector; its only mouse zones are those of the selector, right of the label.
pub proof fn lemma_src_row_layout(w: Widget, model: DataModel, available: Rect)
    requires
        is_src_row(w),
        on_terminal(available),
    ensures
        widget_size(w, model, available) == if available.size.x >= 19 && available.size.y >= 1 {
            Some(Xy { x: 19, y: 1 })
        } else {
            None
        },
        zone_writes(w, model, available) == if available.size.x >= 19 && available.size.y >= 1 {
            selector_zones(Xy { x: (available.top_left.x + 5) as u16, y: available.top_left.y })
        } else {
            Seq::empty()
        },
{
    let s = w->Stack_0;
    let ch = s.children@;
    let zero = Xy { x: 0, y: 0 };
    assert(ch.drop_first()[0] == ch[1]);
    assert(ch.drop_first().drop_first().len() == 0);
    let sel = ch[1]->Selector_0;
    assert(sel.spec_size() == Xy { x: 14, y: 1 });
    if available.size.x >= 5 && available.size.y >= 1 {
        let used = grown(Direction::Hoz, zero, Xy { x: 5, y: 1 });
        assert(used == Xy { x: 5, y: 1 });
        let area = remaining_area(Direction::Hoz, available, used);
        assert(area.top_left == Xy { x: (available.top_left.x + 5) as u16, y: available.top_left.y });
        assert(remaining_area(Direction::Hoz, available, zero) == available);
        assert(widget_size(ch[0], model, available) == Some(Xy { x: 5, y: 1 }));
        assert(stack_size(ch, Direction::Hoz, model, available, zero) == stack_size(
            ch.drop_first(),
            Direction::Hoz,
            model,
            available,
            used,
        ));
        assert(stack_zone_writes(ch.drop_first().drop_first(), Direction::Hoz, model, available, grown(Direction::Hoz, used, Xy { x: 14, y: 1 })) =~= Seq::empty());
        assert(zone_writes(ch[0], model, available) =~= Seq::empty());
        if available.size.x >= 19 {
            assert(widget_size(ch[1], model, area) == Some(Xy { x: 14, y: 1 }));
            assert(zone_writes(ch[1], model, area) == selector_zones(area.top_left));
            assert(stack_zone_writes(ch.drop_first(), Direction::Hoz, model, available, used) =~= selector_zones(area.top_left));
            assert(grown(Direction::Hoz, used, Xy { x: 14, y: 1 }) == Xy { x: 19, y: 1 });
            assert(stack_size(ch.drop_first().drop_first(), Direction::Hoz, model, available, Xy { x: 19, y: 1 }) == Some(Xy { x: 19, y: 1 }));
            assert(stack_size(ch.drop_first(), Direction::Hoz, model, available, used) == Some(Xy { x: 19, y: 1 }));
        } else {
            assert(widget_size(ch[1], model, area) is None);
            assert(zone_writes(ch[1], model, area) =~= Seq::empty());
            assert(stack_zone_writes(ch.drop_first(), Direction::Hoz, model, available, used) =~= Seq::empty());
            assert(stack_size(ch.drop_first(), Direction::Hoz, model, available, used) is None);
        }
        assert(stack_zone_writes(ch, Direction::Hoz, model, available, zero) =~= zone_writes(w, model, available));
    } else {
        assert(remaining_area(Direction::Hoz, available, zero) == available);
        assert(widget_size(ch[0], model, available) is None);
        assert(zone_writes(ch[0], model, available) =~= Seq::empty());
        assert(stack_zone_writes(ch, Direction::Hoz, model, available, zero) =~= Seq::empty());
    }
}

/// A vertical stack of one child takes what its child takes, and sets its child's zones.
proof fn lemma_single_vert_stack(s: Stack, model: DataModel, available: Rect)
    requires
        s.dir == Direction::Vert,
        s.children@.len() == 1,
        on_terminal(available),
    ensures
        stack_size(s.children@, s.dir, model, available, Xy { x: 0, y: 0 }) == widget_size(
            s.children@[0],
            model,
            available,
        ),
        stack_zone_writes(s.children@, s.dir, model, available, Xy { x: 0, y: 0 }) == zone_writes(
            s.children@[0],
            model,
            available,
        ),
{
    let ch = s.children@;
    let zero = Xy { x: 0, y: 0 };
    assert(remaining_area(Direction::Vert, available, zero) == available);
    assert(ch.drop_first().len() == 0);
    if let Some(u) = widget_size(ch[0], model, available) {
        assert(grown(Direction::Vert, zero, u) == u);
        assert(stack_size(ch.drop_first(), Direction::Vert, model, available, u) == Some(u));
        assert(stack_zone_writes(ch.drop_first(), Direction::Vert, model, available, u) =~= Seq::empty());
    }
    assert(stack_zone_writes(ch, Direction::Vert, model, available, zero) =~= zone_writes(
        ch[0],
        model,
        available,
    ));
}

/// The clock frame takes 23 columns and 3 rows; its only mouse zones are those of the
/// selector, seven columns right of its left edge and a row below its top.
pub proof fn lemma_clock_frame_layout(w: Widget, model: DataModel, available: Rect)
    requires
        is_clock_frame(w),
        on_terminal(available),
    ensures
        widget_size(w, model, available) == if available.size.x >= 23 && available.size.y >= 3 {
            Some(Xy { x: 23, y: 3 })
        } else {
            None
        },
        zone_writes(w, model, available) == if available.size.x >= 23 && available.size.y >= 3 {
            selector_zones(
                Xy { x: (available.top_left.x + 7) as u16, y: (available.top_left.y + 1) as u16 },
            )
        } else {
            Seq::empty()
        },
{
    let f = w->Frame_0;
    let col = f.child->Stack_0;
    assert(frame_min_size(f.title, true) == Xy { x: 13, y: 2 });
    if fits(available, Xy { x: 13, y: 2 }) {
        let ca = child_area(available);
        lemma_single_vert_stack(col, model, ca);
        lemma_src_row_layout(col.children@[0], model, ca);
        assert(widget_size(f.child, model, ca) == widget_size(col.children@[0], model, ca));
        assert(zone_writes(f.child, model, ca) == zone_writes(col.children@[0], model, ca));
        assert(frame_size_around(Xy { x: 13, y: 2 }, Xy { x: 19, y: 1 }) == Xy { x: 23, y: 3 });
        assert(widget_size(w, model, available) == frame_size(*f, model, available));
        assert(zone_writes(w, model, available) == frame_zone_writes(*f, model, available));
    } else {
        assert(widget_size(w, model, available) == frame_size(*f, model, available));
        assert(zone_writes(w, model, available) == frame_zone_writes(*f, model, available));
    }
}

/// The main row takes 67 columns and 19 rows; its only mouse zones are those of the
/// selector, 51 columns right of its left edge and a row below its top.
pub proof fn lemma_main_row_layout(w: Widget, model: DataModel, available: Rect)
    requires
        is_main_row(w),
        model.wf(),
        on_terminal(available),
    ensures
        widget_size(w, model, available) == if available.size.x >= 67 && available.size.y >= 19 {
            Some(Xy { x: 67, y: 19 })
        } else {
            None
        },
        zone_writes(w, model, available) == if available.size.x >= 67 && available.size.y >= 19 {
            selector_zones(
                Xy { x: (available.top_left.x + 51) as u16, y: (available.top_left.y + 1) as u16 },
            )
        } else {
            Seq::empty()
        },
{
    model.lemma_wf();
    let s = w->Stack_0;
    let ch = s.children@;
    let d = Direction::Hoz;
    let c1 = ch.drop_first();
    let c2 = c1.drop_first();
    let c3 = c2.drop_first();
    let c4 = c3.drop_first();
    assert(c1[0] == ch[1] && c2[0] == ch[2] && c3[0] == ch[3] && c4.len() == 0);
    let u0 = Xy { x: 0, y: 0 };
    let u1 = Xy { x: 3, y: 1 };
    let u2 = Xy { x: 40, y: 19 };
    let u3 = Xy { x: 44, y: 19 };
    let u4 = Xy { x: 67, y: 19 };
    let a0 = remaining_area(d, available, u0);
    let a1 = remaining_area(d, available, u1);
    let a2 = remaining_area(d, available, u2);
    let a3 = remaining_area(d, available, u3);
    assert(a0 == available);
    assert(ch[1]->Automaton_0.spec_size(model) == Xy { x: 37, y: 19 });
    let col = ch[3]->Stack_0;
    assert(zone_writes(ch[0], model, a0) =~= Seq::empty());
    assert(zone_writes(ch[1], model, a1) =~= Seq::empty());
    assert(zone_writes(ch[2], model, a2) =~= Seq::empty());
    assert(stack_zone_writes(c4, d, model, available, u4) =~= Seq::empty());
    assert(widget_size(w, model, available) == stack_size(ch, d, model, available, u0));
    if !(available.size.x >= 3 && available.size.y >= 1) {
        assert(stack_zone_writes(ch, d, model, available, u0) =~= Seq::empty());
        assert(stack_size(ch, d, model, available, u0) is None);
    } else if !(available.size.x >= 40 && available.size.y >= 19) {
        assert(grown(d, u0, Xy { x: 3, y: 1 }) == u1);
        assert(stack_zone_writes(c1, d, model, available, u1) =~= Seq::empty());
        assert(stack_zone_writes(ch, d, model, available, u0) =~= Seq::empty());
        assert(stack_size(c1, d, model, available, u1) is None);
        assert(stack_size(ch, d, model, available, u0) is None);
    } else if !(available.size.x >= 44) {
        assert(grown(d, u0, Xy { x: 3, y: 1 }) == u1);
        assert(grown(d, u1, Xy { x: 37, y: 19 }) == u2);
        assert(stack_zone_writes(c2, d, model, available, u2) =~= Seq::empty());
        assert(stack_zone_writes(c1, d, model, available, u1) =~= Seq::empty());
        assert(stack_zone_writes(ch, d, model, available, u0) =~= Seq::empty());
        assert(stack_size(c2, d, model, available, u2) is None);
        assert(stack_size(c1, d, model, available, u1) is None);
        assert(stack_size(ch, d, model, available, u0) is None);
    } else {
        assert(grown(d, u0, Xy { x: 3, y: 1 }) == u1);
        assert(grown(d, u1, Xy { x: 37, y: 19 }) == u2);
        assert(grown(d, u2, Xy { x: 4, y: 1 }) == u3);
        assert(a3.top_left == Xy { x: (available.top_left.x + 44) as u16, y: available.top_left.y });
        assert(a3.size == Xy { x: (available.size.x - 44) as u16, y: available.size.y });
        lemma_single_vert_stack(col, model, a3);
        lemma_clock_frame_layout(col.children@[0], model, a3);
        assert(widget_size(ch[3], model, a3) == widget_size(col.children@[0], model, a3));
        assert(zone_writes(ch[3], model, a3) == zone_writes(col.children@[0], model, a3));
        if available.size.x >= 67 {
            assert(grown(d, u3, Xy { x: 23, y: 3 }) == u4);
            assert(stack_size(c4, d, model, available, u4) == Some(u4));
            assert(stack_size(c3, d, model, available, u3) == Some(u4));
            assert(stack_zone_writes(c3, d, model, available, u3) =~= zone_writes(ch[3], model, a3));
        } else {
            assert(stack_zone_writes(c3, d, model, available, u3) =~= Seq::empty());
            assert(stack_size(c3, d, model, available, u3) is None);
        }
        assert(stack_size(c2, d, model, available, u2) == stack_size(c3, d, model, available, u3));
        assert(stack_size(c1, d, model, available, u1) == stack_size(c2, d, model, available, u2));
        assert(stack_size(ch, d, model, available, u0) == stack_size(c1, d, model, available, u1));
        assert(stack_zone_writes(c2, d, model, available, u2) =~= stack_zone_writes(c3, d, model, available, u3));
        assert(stack_zone_writes(c1, d, model, available, u1) =~= stack_zone_writes(c2, d, model, available, u2));
        assert(stack_zone_writes(ch, d, model, available, u0) =~= stack_zone_writes(c1, d, model, available, u1));
    }
}

/// The whole layout fits exactly when the screen is at least 67 columns by 20 rows; it then
/// takes 67 by 20, and its only mouse zones are those of the clock source selector, 51
/// columns right and two rows below the top left corner.
pub proof fn lemma_default_layout(w: Widget, model: DataModel, available: Rect)
    requires
        is_default_layout(w),
        model.wf(),
        on_terminal(available),
    ensures
        widget_size(w, model, available) == if available.size.x >= 67 && available.size.y >= 20 {
            Some(Xy { x: 67, y: 20 })
        } else {
            None
        },
        zone_writes(w, model, available) == if available.size.x >= 67 && available.size.y >= 20 {
            selector_zones(
                Xy { x: (available.top_left.x + 51) as u16, y: (available.top_left.y + 2) as u16 },
            )
        } else {
            Seq::empty()
        },
{
    let s = w->Stack_0;
    let ch = s.children@;
    let d = Direction::Vert;
    let c1 = ch.drop_first();
    let c2 = c1.drop_first();
    assert(c1[0] == ch[1] && c2.len() == 0);
    let u0 = Xy { x: 0, y: 0 };
    let u1 = Xy { x: 1, y: 1 };
    let u2 = Xy { x: 67, y: 20 };
    let a1 = remaining_area(d, available, u1);
    assert(remaining_area(d, available, u0) == available);
    assert(zone_writes(ch[0], model, available) =~= Seq::empty());
    assert(stack_zone_writes(c2, d, model, available, u2) =~= Seq::empty());
    if available.size.x >= 1 && available.size.y >= 1 {
        assert(widget_size(ch[0], model, available) == Some(u1));
        assert(grown(d, u0, Xy { x: 1, y: 1 }) == u1);
        assert(a1 == Rect {
            top_left: Xy { x: available.top_left.x, y: (available.top_left.y + 1) as u16 },
            size: Xy { x: available.size.x, y: (available.size.y - 1) as u16 },
        });
        lemma_main_row_layout(ch[1], model, a1);
        if available.size.x >= 67 && available.size.y >= 20 {
            assert(grown(d, u1, Xy { x: 67, y: 19 }) == u2);
            assert(stack_size(c2, d, model, available, u2) == Some(u2));
            assert(stack_size(c1, d, model, available, u1) == Some(u2));
            assert(stack_zone_writes(c1, d, model, available, u1) =~= zone_writes(ch[1], model, a1));
        } else {
            assert(stack_zone_writes(c1, d, model, available, u1) =~= Seq::empty());
            assert(stack_size(c1, d, model, available, u1) is None);
        }
        assert(stack_size(ch, d, model, available, u0) == stack_size(c1, d, model, available, u1));
        assert(stack_zone_writes(ch, d, model, available, u0) =~= stack_zone_writes(c1, d, model, available, u1));
    } else {
        assert(stack_zone_writes(ch, d, model, available, u0) =~= Seq::empty());
        assert(stack_size(ch, d, model, available, u0) is None);
    }
    assert(widget_size(w, model, available) == stack_size(ch, d, model, available, u0));
}

} // verus!
