pub mod canvas;
pub mod components;
pub mod mouse;
pub mod styles;
pub mod util;

use self::canvas::{Canvas, Command};
use self::components::selector::lemma_selector_click;
use self::components::{
    is_default_layout, lemma_default_layout, paint_commands, widget_size, widget_wf, within_map,
    zone_writes, Component, Components, Part, Widget,
};
use self::mouse::{zones_applied, Zone, ZoneMap};
use self::util::{Rect, Xy};
use crate::datamodel::{Change, ClockSrc, DataModel};
use core::ops::ControlFlow;
use vstd::prelude::*;

verus! {

/// A key of the keyboard, as far as the screen cares.
#[derive(Clone, Copy, Debug, PartialEq, Eq, Structural)]
pub enum KeyCode {
    Esc,
    Char(char),
    Other,
}

/// The modifier keys held with a key or a click, as far as the screen cares.
#[derive(Clone, Copy, Debug, PartialEq, Eq, Structural)]
pub enum Modifiers {
    Plain,
    Control,
    Other,
}

/// An event of the terminal, as far as the screen cares.
#[derive(Clone, Copy, Debug, PartialEq, Eq, Structural)]
pub enum TermEvent {
    /// The terminal now has `x` columns and `y` rows.
    Resize(u16, u16),
    /// A key went down (`press`) or up.
    Key { press: bool, code: KeyCode, modifiers: Modifiers },
    /// The left mouse button went down (`left_down`), or something else happened to the mouse,
    /// at a cell.
    Mouse { left_down: bool, column: u16, row: u16, modifiers: Modifiers },
    Other,
}

/// What the screen asks for after a terminal event: whether to go on, and a change of the
/// data model to apply.
pub struct EventOutcome {
    pub flow: ControlFlow<()>,
    pub change: Option<Change>,
}

/// The part of the screen that shows what `change` changed.
pub open spec fn part_for(change: Change) -> Part {
    match change {
        Change::AdvanceAutomatonState => Part::Automaton,
        Change::SetClockSrc(_) => Part::ClockSrcSelector,
        Change::ToggleClockIndicator => Part::ClockIndicator,
    }
}

/// The change that a click in `zone` asks for.
pub open spec fn change_for(zone: Zone) -> Change {
    match zone {
        Zone::ClockSrcBuiltin => Change::SetClockSrc(ClockSrc::Builtin),
        Zone::ClockSrcMidi => Change::SetClockSrc(ClockSrc::Midi),
    }
}

/// The whole screen of size `size`.
pub open spec fn screen_rect(size: Xy) -> Rect {
    Rect { top_left: Xy { x: 0, y: 0 }, size }
}

/// The decisions of the terminal screen: its layout, its size, and the mouse zones of the
/// last layout.
pub struct Ui {
    components: Components,
    screen_size: Xy,
    mouse_map: ZoneMap,
    place_ok: bool,
}

impl Ui {
    pub closed spec fn root(&self) -> Widget {
        self.components.root
    }

    pub closed spec fn spec_screen_size(&self) -> Xy {
        self.screen_size
    }

    /// Whether the last layout fitted on the screen.
    pub closed spec fn spec_place_ok(&self) -> bool {
        self.place_ok
    }

    pub closed spec fn spec_mouse_map(&self) -> ZoneMap {
        self.mouse_map
    }

    /// The screen layout is the default one and the mouse map holds whole rows.
    pub open spec fn wf(&self) -> bool {
        &&& is_default_layout(self.root())
        &&& widget_wf(self.root())
        &&& self.spec_mouse_map().wf()
    }

    /// Whether `after` is `before` laid out and drawn again on the whole screen of `after`,
    /// with the data model `model`, and `drawn` is what that drew.
    pub open spec fn relaid(before: Ui, after: Ui, model: DataModel, drawn: Seq<Command>) -> bool {
        let screen = screen_rect(after.spec_screen_size());
        let ok = after.spec_screen_size().x > 0 && widget_size(after.root(), model, screen) is Some;
        &&& after.wf()
        &&& after.root() == before.root()
        &&& after.spec_place_ok() == ok
        &&& after.spec_mouse_map().spec_width() == after.spec_screen_size().x
        &&& after.spec_mouse_map().spec_height() == if after.spec_screen_size().x == 0 {
            0
        } else {
            after.spec_screen_size().y as nat
        }
        &&& forall|x: int, y: int|
            after.spec_mouse_map().in_map(x, y) ==> #[trigger] after.spec_mouse_map().zone_at(x, y)
                == if ok {
                zones_applied(zone_writes(after.root(), model, screen), x, y, None)
            } else {
                None
            }
        &&& drawn == seq![Command::Clear] + (if ok {
            paint_commands(after.root(), model, screen, None)
        } else {
            seq![Command::MoveTo(Xy { x: 0, y: 0 }), Command::Write("window too small")]
        }) + seq![Command::Flush]
    }

    /// The screen of a terminal of size `screen_size`, not laid out yet.
    pub fn new(screen_size: Xy) -> (r: Ui)
        ensures
            r.wf(),
            r.spec_screen_size() == screen_size,
            !r.spec_place_ok(),
            r.spec_mouse_map().spec_width() == 0,
            r.spec_mouse_map().spec_height() == 0,
    {
        let components = Components::build();
        Ui { components, screen_size, mouse_map: ZoneMap::new(Xy::zero()), place_ok: false }
    }

    /// The size of the terminal.
    pub fn screen_size(&self) -> (r: Xy)
        ensures
            r == self.spec_screen_size(),
    {
        self.screen_size
    }

    /// Lays the whole screen out again and draws it, or says that the window is too small.
    pub fn place_and_paint_all(&mut self, model: &DataModel, canvas: &mut Canvas)
        requires
            old(self).wf(),
            model.wf(),
        ensures
            final(self).spec_screen_size() == old(self).spec_screen_size(),
            Ui::relaid(
                *old(self),
                *final(self),
                *model,
                final(canvas).queued().subrange(
                    old(canvas).queued().len() as int,
                    final(canvas).queued().len() as int,
                ),
            ),
            old(canvas).queued().len() <= final(canvas).queued().len(),
            final(canvas).queued().subrange(0, old(canvas).queued().len() as int) == old(
                canvas,
            ).queued(),
    {
        let screen = Rect { top_left: Xy::zero(), size: self.screen_size };
        self.mouse_map = ZoneMap::new(self.screen_size);
        let ghost fresh = self.mouse_map;
        self.place_ok = if self.screen_size.x > 0 {
            self.components.root.place(model, screen, &mut self.mouse_map).is_some()
        } else {
            false
        };
        if !self.place_ok {
            self.mouse_map.clear();
        }
        let ghost start = canvas.queued();
        canvas.clear();
        if self.place_ok {
            self.components.root.paint(model, screen, canvas);
        } else {
            canvas.move_to(Xy::zero());
            canvas.write("window too small");
        }
        canvas.flush();
        proof {
            let drawn = canvas.queued().subrange(start.len() as int, canvas.queued().len() as int);
            assert(canvas.queued().subrange(0, start.len() as int) =~= start);
            if self.place_ok {
                assert(drawn =~= seq![Command::Clear] + paint_commands(self.components.root, *model, screen, None) + seq![Command::Flush]);
                assert forall|x: int, y: int| self.mouse_map.in_map(x, y) implies #[trigger] self.mouse_map.zone_at(x, y)
                    == zones_applied(zone_writes(self.components.root, *model, screen), x, y, None) by {
                    assert(fresh.in_map(x, y));
                }
            } else {
                assert(drawn =~= seq![Command::Clear] + seq![Command::MoveTo(Xy { x: 0, y: 0 }), Command::Write("window too small")] + seq![Command::Flush]);
            }
        }
    }

    /// Follows a terminal event: a new size or Ctrl-L lays the screen out again, Esc or
    /// Ctrl-C asks to quit, and a left click on a clock source label asks to select it.
    pub fn on_terminal_event(&mut self, model: &DataModel, event: TermEvent, canvas: &mut Canvas) -> (r: EventOutcome)
        requires
            old(self).wf(),
            model.wf(),
        ensures
            final(self).wf(),
            match event {
                TermEvent::Resize(x, y) => {
                    &&& final(self).spec_screen_size() == (Xy { x, y })
                    &&& old(canvas).queued().len() <= final(canvas).queued().len()
                    &&& final(canvas).queued().subrange(0, old(canvas).queued().len() as int) == old(canvas).queued()
                    &&& Ui::relaid(
                        *old(self),
                        *final(self),
                        *model,
                        final(canvas).queued().subrange(
                            old(canvas).queued().len() as int,
                            final(canvas).queued().len() as int,
                        ),
                    )
                    &&& r.flow == ControlFlow::<()>::Continue(())
                    &&& r.change is None
                },
                TermEvent::Key { press: true, code: KeyCode::Esc, modifiers: Modifiers::Plain }
                | TermEvent::Key { press: true, code: KeyCode::Char('c'), modifiers: Modifiers::Control } => {
                    &&& *final(self) == *old(self)
                    &&& final(canvas).queued() == old(canvas).queued()
                    &&& r.flow == ControlFlow::<()>::Break(())
                    &&& r.change is None
                },
                TermEvent::Key { press: true, code: KeyCode::Char('l'), modifiers: Modifiers::Control } => {
                    &&& final(self).spec_screen_size() == old(self).spec_screen_size()
                    &&& old(canvas).queued().len() <= final(canvas).queued().len()
                    &&& final(canvas).queued().subrange(0, old(canvas).queued().len() as int) == old(canvas).queued()
                    &&& Ui::relaid(
                        *old(self),
                        *final(self),
                        *model,
                        final(canvas).queued().subrange(
                            old(canvas).queued().len() as int,
                            final(canvas).queued().len() as int,
                        ),
                    )
                    &&& r.flow == ControlFlow::<()>::Continue(())
                    &&& r.change is None
                },
                TermEvent::Mouse { left_down: true, column, row, modifiers: Modifiers::Plain } => {
                    let map = old(self).spec_mouse_map();
                    &&& *final(self) == *old(self)
                    &&& final(canvas).queued() == old(canvas).queued()
                    &&& r.flow == ControlFlow::<()>::Continue(())
                    &&& r.change == if map.in_map(column as int, row as int) {
                        match map.zone_at(column as int, row as int) {
                            Some(zone) => Some(change_for(zone)),
                            None => None,
                        }
                    } else {
                        None
                    }
                },
                _ => {
                    &&& *final(self) == *old(self)
                    &&& final(canvas).queued() == old(canvas).queued()
                    &&& r.flow == ControlFlow::<()>::Continue(())
                    &&& r.change is None
                },
            },
    {
        match event {
            TermEvent::Resize(x, y) => {
                self.screen_size = Xy { x, y };
                self.place_and_paint_all(model, canvas);
                EventOutcome { flow: ControlFlow::Continue(()), change: None }
            },
            TermEvent::Key { press: true, code: KeyCode::Esc, modifiers: Modifiers::Plain }
            | TermEvent::Key { press: true, code: KeyCode::Char('c'), modifiers: Modifiers::Control } => {
                EventOutcome { flow: ControlFlow::Break(()), change: None }
            },
            TermEvent::Key { press: true, code: KeyCode::Char('l'), modifiers: Modifiers::Control } => {
                self.place_and_paint_all(model, canvas);
                EventOutcome { flow: ControlFlow::Continue(()), change: None }
            },
            TermEvent::Mouse { left_down: true, column, row, modifiers: Modifiers::Plain } => {
                let coords = Xy { x: column, y: row };
                let zone = if self.mouse_map.contains(coords) {
                    self.mouse_map.get(coords)
                } else {
                    None
                };
                let change = match zone {
                    None => None,
                    Some(Zone::ClockSrcBuiltin) => Some(Change::SetClockSrc(ClockSrc::Builtin)),
                    Some(Zone::ClockSrcMidi) => Some(Change::SetClockSrc(ClockSrc::Midi)),
                };
                EventOutcome { flow: ControlFlow::Continue(()), change }
            },
            _ => EventOutcome { flow: ControlFlow::Continue(()), change: None },
        }
    }

    /// Follows a change of the data model: when the screen is laid out, redraws the part that
    /// shows what changed.
    pub fn on_datamodel_change(&mut self, model: &DataModel, change: Change, canvas: &mut Canvas)
        requires
            old(self).wf(),
            model.wf(),
        ensures
            *final(self) == *old(self),
            final(canvas).queued() == if old(self).spec_place_ok() {
                old(canvas).queued() + paint_commands(
                    old(self).root(),
                    *model,
                    screen_rect(old(self).spec_screen_size()),
                    Some(part_for(change)),
                ) + seq![Command::Flush]
            } else {
                old(canvas).queued()
            },
    {
        if self.place_ok {
            let screen = Rect { top_left: Xy::zero(), size: self.screen_size };
            let part = match change {
                Change::AdvanceAutomatonState => Part::Automaton,
                Change::SetClockSrc(_) => Part::ClockSrcSelector,
                Change::ToggleClockIndicator => Part::ClockIndicator,
            };
            components::paint_widget(&self.components.root, model, screen, Some(part), canvas);
            canvas.flush();
        }
    }
}

/// The screen fits exactly when it is at least 67 columns by 20 rows; once it is laid out,
/// the label `builtin` covers columns 51 to 57 of row 2 and the label `midi` columns 61 to 64,
/// and every other cell belongs to no zone, so a click on a label asks for its clock source.
pub proof fn law_layout_and_clicks(before: Ui, after: Ui, model: DataModel, drawn: Seq<Command>, x: int, y: int)
    requires
        before.wf(),
        model.wf(),
        Ui::relaid(before, after, model, drawn),
        after.spec_mouse_map().in_map(x, y),
    ensures
        after.spec_place_ok() == (after.spec_screen_size().x >= 67 && after.spec_screen_size().y >= 20),
        after.spec_mouse_map().zone_at(x, y) == if after.spec_place_ok() && y == 2 && 51 <= x < 58 {
            Some(Zone::ClockSrcBuiltin)
        } else if after.spec_place_ok() && y == 2 && 61 <= x < 65 {
            Some(Zone::ClockSrcMidi)
        } else {
            None
        },
{
    let screen = screen_rect(after.spec_screen_size());
    lemma_default_layout(after.root(), model, screen);
    if after.spec_place_ok() {
        lemma_selector_click(Xy { x: 51, y: 2 }, x, y, None);
    }
}

} // verus!
