use otto::datamodel::{Change, ClockSrc, DataModel};
use otto::ui::canvas::{Canvas, Command};
use otto::ui::components::{measure_widget, Component, Components};
use otto::ui::mouse::{Zone, ZoneMap};
use otto::ui::styles::Style;
use otto::ui::util::{Rect, Xy};
use otto::ui::{EventOutcome, KeyCode, Modifiers, TermEvent, Ui};
use std::ops::ControlFlow;

#[test]
fn xy_and_rect() {
    let a = Xy { x: 3, y: 4 };
    assert_eq!(a.add_x(2), Xy { x: 5, y: 4 });
    assert_eq!(a.add_y(2), Xy { x: 3, y: 6 });
    assert_eq!(a.sub_x(3), Xy { x: 0, y: 4 });
    assert_eq!(a.sub_y(1), Xy { x: 3, y: 3 });
    assert_eq!(a + Xy { x: 1, y: 1 }, Xy { x: 4, y: 5 });
    assert_eq!(a - Xy { x: 1, y: 1 }, Xy { x: 2, y: 3 });
    assert_eq!(Xy::from((7u16, 8u16)), Xy { x: 7, y: 8 });
    let r = Rect { top_left: Xy { x: 2, y: 1 }, size: Xy { x: 10, y: 5 } };
    assert_eq!((r.left(), r.top(), r.right(), r.bottom()), (2, 1, 12, 6));
    assert_eq!((r.width(), r.height()), (10, 5));
    assert_eq!(r.top_left(), Xy { x: 2, y: 1 });
    assert_eq!(r.top_right(), Xy { x: 12, y: 1 });
    assert_eq!(r.bottom_left(), Xy { x: 2, y: 6 });
    assert_eq!(r.bottom_right(), Xy { x: 12, y: 6 });
    let (left, right) = r.hsplit_at(4);
    assert_eq!(left, Rect { top_left: Xy { x: 2, y: 1 }, size: Xy { x: 4, y: 5 } });
    assert_eq!(right, Rect { top_left: Xy { x: 6, y: 1 }, size: Xy { x: 6, y: 5 } });
    let (top, bottom) = r.vsplit_at(5);
    assert_eq!(top, r);
    assert_eq!(bottom, Rect { top_left: Xy { x: 2, y: 6 }, size: Xy { x: 10, y: 0 } });
    assert_eq!(Rect::zero(), Rect { top_left: Xy::zero(), size: Xy::zero() });
}

#[test]
fn zone_map() {
    let mut m = ZoneMap::new(Xy { x: 6, y: 4 });
    assert_eq!(m.get(Xy { x: 5, y: 3 }), None);
    m.set(Rect { top_left: Xy { x: 1, y: 1 }, size: Xy { x: 2, y: 2 } }, Zone::ClockSrcMidi);
    assert_eq!(m.get(Xy { x: 1, y: 1 }), Some(Zone::ClockSrcMidi));
    assert_eq!(m.get(Xy { x: 2, y: 2 }), Some(Zone::ClockSrcMidi));
    assert_eq!(m.get(Xy { x: 3, y: 2 }), None);
    assert_eq!(m.get(Xy { x: 1, y: 3 }), None);
    assert!(m.contains(Xy { x: 5, y: 3 }));
    assert!(!m.contains(Xy { x: 6, y: 0 }));
    m.clear();
    assert_eq!(m.get(Xy { x: 1, y: 1 }), None);
}

#[test]
fn canvas_queues_in_order() {
    let mut c = Canvas::new();
    c.clear();
    c.move_to(Xy { x: 1, y: 2 });
    c.set_style(Style::Selected);
    c.write_repeat("ab", 2);
    c.reset_style();
    c.flush();
    assert_eq!(
        c.into_inner(),
        vec![
            Command::Clear,
            Command::MoveTo(Xy { x: 1, y: 2 }),
            Command::SetStyle(Style::Selected),
            Command::Write("ab"),
            Command::Write("ab"),
            Command::ResetStyle,
            Command::Flush,
        ]
    );
}

fn writes(cmds: &[Command]) -> Vec<&'static str> {
    cmds.iter()
        .filter_map(|c| match c {
            Command::Write(s) => Some(*s),
            _ => None,
        })
        .collect()
}

#[test]
fn layout_fits_and_zones() {
    let model = DataModel::new();
    let comps = Components::build();
    let screen = Rect { top_left: Xy::zero(), size: Xy { x: 80, y: 24 } };
    assert_eq!(measure_widget(&comps.root, &model, screen), Some(Xy { x: 67, y: 20 }));
    let narrow = Rect { top_left: Xy::zero(), size: Xy { x: 66, y: 24 } };
    assert_eq!(measure_widget(&comps.root, &model, narrow), None);
    let short = Rect { top_left: Xy::zero(), size: Xy { x: 80, y: 19 } };
    assert_eq!(measure_widget(&comps.root, &model, short), None);
    let mut map = ZoneMap::new(Xy { x: 80, y: 24 });
    assert_eq!(comps.root.place(&model, screen, &mut map), Some(Xy { x: 67, y: 20 }));
    assert_eq!(map.get(Xy { x: 51, y: 2 }), Some(Zone::ClockSrcBuiltin));
    assert_eq!(map.get(Xy { x: 57, y: 2 }), Some(Zone::ClockSrcBuiltin));
    assert_eq!(map.get(Xy { x: 58, y: 2 }), None);
    assert_eq!(map.get(Xy { x: 61, y: 2 }), Some(Zone::ClockSrcMidi));
    assert_eq!(map.get(Xy { x: 64, y: 2 }), Some(Zone::ClockSrcMidi));
    assert_eq!(map.get(Xy { x: 65, y: 2 }), None);
    assert_eq!(map.get(Xy { x: 51, y: 3 }), None);
}

#[test]
fn ui_draws_and_clicks() {
    let mut model = DataModel::new();
    let mut ui = Ui::new(Xy { x: 80, y: 24 });
    let mut canvas = Canvas::new();
    ui.place_and_paint_all(&model, &mut canvas);
    let cmds = canvas.into_inner();
    assert_eq!(cmds.first(), Some(&Command::Clear));
    assert_eq!(cmds.last(), Some(&Command::Flush));
    let w = writes(&cmds);
    assert!(w.contains(&"CLOCK"));
    assert!(w.contains(&"src: "));
    assert!(w.contains(&"builtin"));
    assert!(w.contains(&"midi"));
    assert!(w.contains(&"⚫"));
    assert!(w.contains(&"┏━━━"));
    assert!(w.contains(&"⮝ "));
    // The grid's top left corner is three columns right of the screen's edge, one row down.
    assert!(cmds.contains(&Command::MoveTo(Xy { x: 3, y: 1 })));
    // The builtin clock source is highlighted.
    let pos = cmds.iter().position(|c| *c == Command::Write("builtin")).unwrap();
    assert_eq!(cmds[pos - 1], Command::SetStyle(Style::Selected));

    let mut canvas = Canvas::new();
    let out: EventOutcome = ui.on_terminal_event(
        &model,
        TermEvent::Mouse { left_down: true, column: 62, row: 2, modifiers: Modifiers::Plain },
        &mut canvas,
    );
    assert_eq!(out.flow, ControlFlow::Continue(()));
    assert_eq!(out.change, Some(Change::SetClockSrc(ClockSrc::Midi)));
    let out = ui.on_terminal_event(
        &model,
        TermEvent::Mouse { left_down: true, column: 52, row: 2, modifiers: Modifiers::Plain },
        &mut canvas,
    );
    assert_eq!(out.change, Some(Change::SetClockSrc(ClockSrc::Builtin)));
    let out = ui.on_terminal_event(
        &model,
        TermEvent::Mouse { left_down: true, column: 52, row: 2, modifiers: Modifiers::Control },
        &mut canvas,
    );
    assert_eq!(out.change, None);
    let out = ui.on_terminal_event(
        &model,
        TermEvent::Mouse { left_down: true, column: 200, row: 200, modifiers: Modifiers::Plain },
        &mut canvas,
    );
    assert_eq!(out.change, None);
    assert!(canvas.into_inner().is_empty());

    Change::SetClockSrc(ClockSrc::Midi).apply(&mut model);
    let mut canvas = Canvas::new();
    ui.on_datamodel_change(&model, Change::SetClockSrc(ClockSrc::Midi), &mut canvas);
    let cmds = canvas.into_inner();
    assert_eq!(cmds[0], Command::MoveTo(Xy { x: 51, y: 2 }));
    let pos = cmds.iter().position(|c| *c == Command::Write("midi")).unwrap();
    assert_eq!(cmds[pos - 1], Command::SetStyle(Style::Selected));
    assert_eq!(cmds.last(), Some(&Command::Flush));

    Change::ToggleClockIndicator.apply(&mut model);
    let mut canvas = Canvas::new();
    ui.on_datamodel_change(&model, Change::ToggleClockIndicator, &mut canvas);
    // The bulb sits in the frame's top border, four columns left of its right edge.
    assert_eq!(
        canvas.into_inner(),
        vec![Command::MoveTo(Xy { x: 63, y: 1 }), Command::Write("🔴"), Command::Flush]
    );
}

#[test]
fn ui_keys_and_resize() {
    let model = DataModel::new();
    let mut ui = Ui::new(Xy { x: 80, y: 24 });
    let mut canvas = Canvas::new();
    let out = ui.on_terminal_event(
        &model,
        TermEvent::Key { press: true, code: KeyCode::Esc, modifiers: Modifiers::Plain },
        &mut canvas,
    );
    assert_eq!(out.flow, ControlFlow::Break(()));
    let out = ui.on_terminal_event(
        &model,
        TermEvent::Key { press: true, code: KeyCode::Char('c'), modifiers: Modifiers::Control },
        &mut canvas,
    );
    assert_eq!(out.flow, ControlFlow::Break(()));
    let out = ui.on_terminal_event(
        &model,
        TermEvent::Key { press: true, code: KeyCode::Char('c'), modifiers: Modifiers::Plain },
        &mut canvas,
    );
    assert_eq!(out.flow, ControlFlow::Continue(()));
    assert!(canvas.into_inner().is_empty());

    let mut canvas = Canvas::new();
    ui.on_terminal_event(&model, TermEvent::Resize(40, 10), &mut canvas);
    assert_eq!(ui.screen_size(), Xy { x: 40, y: 10 });
    assert_eq!(
        canvas.into_inner(),
        vec![
            Command::Clear,
            Command::MoveTo(Xy { x: 0, y: 0 }),
            Command::Write("window too small"),
            Command::Flush,
        ]
    );
    // While the window is too small, changes draw nothing.
    let mut canvas = Canvas::new();
    ui.on_datamodel_change(&model, Change::AdvanceAutomatonState, &mut canvas);
    assert!(canvas.into_inner().is_empty());
    let mut canvas = Canvas::new();
    ui.on_terminal_event(
        &model,
        TermEvent::Key { press: true, code: KeyCode::Char('l'), modifiers: Modifiers::Control },
        &mut canvas,
    );
    assert_eq!(canvas.into_inner().len(), 4);
}

#[test]
fn partial_repaint_draws_only_the_grid() {
    let mut model = DataModel::new();
    let mut ui = Ui::new(Xy { x: 80, y: 24 });
    let mut canvas = Canvas::new();
    ui.place_and_paint_all(&model, &mut canvas);
    Change::AdvanceAutomatonState.apply(&mut model);
    let mut canvas = Canvas::new();
    ui.on_datamodel_change(&model, Change::AdvanceAutomatonState, &mut canvas);
    let cmds = canvas.into_inner();
    assert_eq!(cmds[0], Command::MoveTo(Xy { x: 3, y: 1 }));
    let w = writes(&cmds);
    assert!(!w.contains(&"CLOCK"));
    assert!(!w.contains(&"builtin"));
    // Nine rows, each of a border line and a line of cells, and the bottom border.
    assert_eq!(cmds.iter().filter(|c| matches!(c, Command::MoveTo(_))).count(), 19);
    assert_eq!(w.iter().filter(|s| **s == "┃").count(), 9);
    assert_eq!(cmds.last(), Some(&Command::Flush));
}

#[test]
fn smallest_screen_that_fits() {
    let model = DataModel::new();
    for (x, y, fits) in [(67u16, 20u16, true), (66, 20, false), (67, 19, false), (200, 60, true)] {
        let mut ui = Ui::new(Xy { x, y });
        let mut canvas = Canvas::new();
        ui.place_and_paint_all(&model, &mut canvas);
        let cmds = canvas.into_inner();
        let too_small = cmds.contains(&Command::Write("window too small"));
        assert_eq!(too_small, !fits);
        let mut canvas = Canvas::new();
        let out = ui.on_terminal_event(
            &model,
            TermEvent::Mouse { left_down: true, column: 51, row: 2, modifiers: Modifiers::Plain },
            &mut canvas,
        );
        assert_eq!(out.change.is_some(), fits);
    }
}

#[test]
fn zone_map_history() {
    let mut m = ZoneMap::new(Xy { x: 5, y: 5 });
    let a = Rect { top_left: Xy { x: 0, y: 0 }, size: Xy { x: 3, y: 3 } };
    let b = Rect { top_left: Xy { x: 2, y: 2 }, size: Xy { x: 3, y: 3 } };
    m.set(a, Zone::ClockSrcBuiltin);
    m.set(b, Zone::ClockSrcMidi);
    // The later rectangle wins where the two overlap.
    assert_eq!(m.get(Xy { x: 2, y: 2 }), Some(Zone::ClockSrcMidi));
    assert_eq!(m.get(Xy { x: 1, y: 1 }), Some(Zone::ClockSrcBuiltin));
    assert_eq!(m.get(Xy { x: 4, y: 0 }), None);
    m.clear();
    m.set(a, Zone::ClockSrcMidi);
    assert_eq!(m.get(Xy { x: 1, y: 1 }), Some(Zone::ClockSrcMidi));
    // What was set before the clear is gone.
    assert_eq!(m.get(Xy { x: 4, y: 4 }), None);
}
