use otto::automaton::Heading::{NegX, NegY, PosX, PosY};
use otto::automaton::Wall;
use otto::datamodel::{default_automaton_state, Change, ClockSrc, DataModel};
use otto::midi::{note_off_event, note_on_event, NoteEvent};
use otto::music_theory::{Pitch, Scale};
use otto::realtime::{bounce_notes, clock_for, x_scale, y_scale, Clock, ClockDivider, Realtime};
use otto::util::Matrix;

#[test]
fn matrix_basics() {
    let mut m = Matrix::new(3, 2, |x, y| x * 10 + y);
    assert_eq!(m.width(), 3);
    assert_eq!(m.height(), 2);
    assert_eq!(*m.get(2, 1), 21);
    m.set(0, 1, 99);
    assert_eq!(*m.get(0, 1), 99);
    let listed: Vec<((usize, usize), usize)> = m.enumerate().into_iter().map(|(xy, v)| (xy, *v)).collect();
    assert_eq!(
        listed,
        vec![((0, 0), 0), ((1, 0), 10), ((2, 0), 20), ((0, 1), 99), ((1, 1), 11), ((2, 1), 21)]
    );
    m.fill(|x, y| x + y);
    assert_eq!(*m.get(2, 1), 3);
    assert_eq!(*m.get(0, 0), 0);
    let c = m.clone();
    assert_eq!(*c.get(1, 1), 2);
    let empty: Matrix<u8> = Matrix::new(0, 5, |_, _| 0);
    assert_eq!(empty.width(), 0);
}

#[test]
fn pitches_and_scales() {
    let p = Pitch::from_midi(61);
    assert_eq!(p.to_midi(), 61);
    assert_eq!(Pitch::from_midi(p.to_midi()), p);
    let xs = x_scale();
    assert_eq!(xs.at(0).to_midi(), 38);
    assert_eq!(xs.at(8).to_midi(), 52);
    assert_eq!(y_scale().at(4).to_midi(), 69);
    let s = Scale([Pitch::from_midi(1); 9]);
    assert_eq!(s.at(3), Pitch::from_midi(1));
}

#[test]
fn clock_src_ordinals() {
    for c in [ClockSrc::Builtin, ClockSrc::Midi] {
        assert_eq!(ClockSrc::from_ordinal(c.ordinal()), Some(c));
    }
    assert_eq!(ClockSrc::Builtin.ordinal(), 0);
    assert_eq!(ClockSrc::Midi.ordinal(), 1);
    assert_eq!(ClockSrc::from_ordinal(2), None);
}

#[test]
fn data_model_changes() {
    let mut m = DataModel::new();
    assert!(!m.clock_indicator_lit());
    assert_eq!(m.clock_src(), ClockSrc::Builtin);
    assert_eq!(m.automaton_state().gliders(), default_automaton_state().gliders());
    Change::SetClockSrc(ClockSrc::Midi).apply(&mut m);
    assert_eq!(m.clock_src(), ClockSrc::Midi);
    Change::ToggleClockIndicator.apply(&mut m);
    assert!(m.clock_indicator_lit());
    Change::ToggleClockIndicator.apply(&mut m);
    assert!(!m.clock_indicator_lit());
    let (expected, _) = default_automaton_state().next();
    Change::AdvanceAutomatonState.apply(&mut m);
    assert_eq!(m.automaton_state().gliders(), expected.gliders());
    assert_eq!(m.clock_src(), ClockSrc::Midi);
}

#[test]
fn default_state() {
    let s = default_automaton_state();
    assert_eq!(s.width(), 9);
    assert_eq!(s.height(), 9);
    assert_eq!(s.gliders().len(), 13);
    assert_eq!(s.gliders_at(5, 0), vec![NegY]);
    assert_eq!(s.gliders_at(1, 1), vec![PosX]);
    assert_eq!(s.gliders_at(0, 3), vec![PosY]);
    assert_eq!(s.gliders_at(4, 3), vec![NegX]);
}

#[test]
fn divider_lets_one_in_n_through() {
    let mut d = ClockDivider::new(3);
    let got: Vec<bool> = (0..7).map(|_| d.tick()).collect();
    assert_eq!(got, vec![true, false, false, true, false, false, true]);
    let mut every = ClockDivider::new(1);
    assert!(every.tick());
    assert!(every.tick());
}

#[test]
fn builtin_clock() {
    let mut c = Clock::builtin(140);
    assert_eq!(c.tick_interval_us(), Some(214285));
    let t1 = c.tick();
    let t2 = c.tick();
    let t3 = c.tick();
    assert!(t1.beat && t1.toggle_indicator);
    assert!(!t2.beat && t2.toggle_indicator);
    assert!(t3.beat && t3.toggle_indicator);
    let mut m = Clock::midi();
    assert_eq!(m.tick_interval_us(), None);
    let t = m.tick();
    assert!(!t.beat && !t.toggle_indicator);
    assert_eq!(clock_for(ClockSrc::Midi).tick_interval_us(), None);
    assert_eq!(clock_for(ClockSrc::Builtin).tick_interval_us(), Some(214285));
}

#[test]
fn notes_for_bounces() {
    let mut b = otto::automaton::Bounces::new(9, 9);
    b.record(Wall::YLimit, 2);
    b.record(Wall::XLimit, 5);
    let notes = bounce_notes(&b, &x_scale(), &y_scale());
    let midi: Vec<u8> = notes.iter().map(|p| p.to_midi()).collect();
    assert_eq!(midi, vec![46, 65]);
}

#[test]
fn realtime_ticks() {
    let model = DataModel::new();
    let mut rt = Realtime::new();
    assert_eq!(rt.tick_interval_us(), Some(214285));
    let first = rt.on_tick(&model);
    assert!(first.beat);
    assert!(first.toggle_indicator);
    // The default pattern bounces off the y wall at x = 5 on its first step.
    let midi: Vec<u8> = first.notes.iter().map(|p| p.to_midi()).collect();
    assert_eq!(midi, vec![70]);
    let second = rt.on_tick(&model);
    assert!(!second.beat);
    assert!(second.notes.is_empty());
    let mut m = DataModel::new();
    Change::SetClockSrc(ClockSrc::Midi).apply(&mut m);
    rt.on_datamodel_change(Change::SetClockSrc(ClockSrc::Midi), &m);
    assert_eq!(rt.tick_interval_us(), None);
    rt.on_datamodel_change(Change::ToggleClockIndicator, &m);
    assert_eq!(rt.tick_interval_us(), None);
}

#[test]
fn note_events() {
    let p = Pitch::from_midi(64);
    assert_eq!(
        note_on_event(p),
        NoteEvent { channel: 0, note: 64, velocity: 32, off_velocity: 32, duration: 0 }
    );
    assert_eq!(
        note_off_event(p),
        NoteEvent { channel: 0, note: 64, velocity: 0, off_velocity: 0, duration: 0 }
    );
}

#[test]
fn builtin_clock_beats_on_every_other_tick() {
    let mut c = Clock::builtin(90);
    for k in 0..20 {
        let t = c.tick();
        assert_eq!(t.beat, k % 2 == 0);
        assert!(t.toggle_indicator);
    }
    let mut m = Clock::midi();
    for _ in 0..5 {
        let t = m.tick();
        assert!(!t.beat && !t.toggle_indicator);
    }
}

#[test]
fn data_model_history() {
    let mut m = DataModel::new();
    let mut expected = default_automaton_state();
    let changes = [
        Change::AdvanceAutomatonState,
        Change::ToggleClockIndicator,
        Change::SetClockSrc(ClockSrc::Midi),
        Change::AdvanceAutomatonState,
        Change::ToggleClockIndicator,
        Change::ToggleClockIndicator,
        Change::AdvanceAutomatonState,
        Change::SetClockSrc(ClockSrc::Builtin),
        Change::SetClockSrc(ClockSrc::Midi),
    ];
    let mut toggles = 0;
    for change in changes {
        match change {
            Change::AdvanceAutomatonState => expected = expected.next().0,
            Change::ToggleClockIndicator => toggles += 1,
            Change::SetClockSrc(_) => {}
        }
        change.apply(&mut m);
        assert_eq!(m.automaton_state().gliders(), expected.gliders());
        assert_eq!(m.clock_indicator_lit(), toggles % 2 == 1);
    }
    assert_eq!(m.clock_src(), ClockSrc::Midi);
    assert_eq!(m.automaton_state().width(), 9);
    assert_eq!(m.automaton_state().height(), 9);
}
