use crate::automaton::{ones, wall_entries, Bounces, Heading, State, Wall};
use crate::datamodel::{Change, ClockSrc, DataModel};
use crate::music_theory::{Pitch, Scale};
use vstd::prelude::*;

verus! {

/// Lets through one tick out of every `divisor`.
pub struct ClockDivider {
    divisor: usize,
    pos: usize,
}

/// Where a divider of `divisor` stands after `n` ticks from its start.
pub open spec fn divider_pos(divisor: nat, n: nat) -> nat
    decreases n,
{
    if n == 0 {
        0
    } else {
        (divider_pos(divisor, (n - 1) as nat) + 1) % divisor
    }
}

/// A divider of `divisor` stands at `n % divisor` after `n` ticks, so its `n`-th tick
/// (counting from zero) goes through exactly when `n` is a multiple of `divisor`.
pub proof fn lemma_divider_phase(divisor: nat, n: nat)
    requires
        divisor > 0,
    ensures
        divider_pos(divisor, n) == n % divisor,
        (divider_pos(divisor, n) == 0) == (n % divisor == 0),
    decreases n,
{
    if n > 0 {
        lemma_divider_phase(divisor, (n - 1) as nat);
        vstd::arithmetic::div_mod::lemma_add_mod_noop((n - 1) as int, 1, divisor as int);
        vstd::arithmetic::div_mod::lemma_mod_twice(1, divisor as int);
        vstd::arithmetic::div_mod::lemma_mod_twice((n - 1) as int, divisor as int);
        vstd::arithmetic::div_mod::lemma_add_mod_noop(((n - 1) as int) % (divisor as int), 1, divisor as int);
    }
}

impl ClockDivider {
    /// How many ticks make one.
    pub closed spec fn spec_divisor(&self) -> nat {
        self.divisor as nat
    }

    /// How many ticks have passed since the last one that went through.
    pub closed spec fn spec_pos(&self) -> nat {
        self.pos as nat
    }

    /// A divider of `divisor` at its start.
    pub closed spec fn spec_new(divisor: usize) -> ClockDivider {
        ClockDivider { divisor, pos: 0 }
    }

    /// The divider after one more tick.
    pub closed spec fn spec_ticked(self) -> ClockDivider {
        ClockDivider { divisor: self.divisor, pos: ((self.pos + 1) % (self.divisor as int)) as usize }
    }

    /// What `spec_new` and `spec_ticked` give.
    pub proof fn lemma_spec_divider(self, divisor: usize)
        ensures
            ClockDivider::spec_new(divisor).spec_divisor() == divisor,
            ClockDivider::spec_new(divisor).spec_pos() == 0,
            self.wf() ==> self.spec_ticked().spec_divisor() == self.spec_divisor(),
            self.wf() ==> self.spec_ticked().spec_pos() == (self.spec_pos() + 1) % self.spec_divisor(),
    {
    }

    /// The position is always less than the divisor.
    pub open spec fn wf(&self) -> bool {
        self.spec_pos() < self.spec_divisor()
    }

    /// A divider that lets through its first tick and then one of every `divisor`.
    pub fn new(divisor: usize) -> (r: ClockDivider)
        ensures
            r == ClockDivider::spec_new(divisor),
            r.spec_divisor() == divisor,
            r.spec_pos() == 0,
    {
        ClockDivider { divisor, pos: 0 }
    }

    /// Counts one tick; returns whether it goes through.
    pub fn tick(&mut self) -> (r: bool)
        requires
            old(self).wf(),
        ensures
            final(self).wf(),
            *final(self) == old(self).spec_ticked(),
            r == (old(self).spec_pos() == 0),
            final(self).spec_divisor() == old(self).spec_divisor(),
            final(self).spec_pos() == (old(self).spec_pos() + 1) % old(self).spec_divisor(),
    {
        let result = self.pos == 0;
        self.pos = (self.pos + 1) % self.divisor;
        result
    }
}

/// What a clock tick asks for: a beat of the automaton, and a toggle of the indicator.
#[derive(Clone, Copy, Debug, PartialEq, Eq, Structural)]
pub struct ClockTick {
    pub beat: bool,
    pub toggle_indicator: bool,
}

/// The clock that drives the automaton: a builtin ticker, or (not implemented yet) MIDI clock.
pub enum Clock {
    Builtin {
        tick_interval_us: u64,
        beat_divider: ClockDivider,
        toggle_indicator_divider: ClockDivider,
    },
    Midi {},
}

/// The time between ticks of the builtin clock at `bpm` beats per minute: it ticks twice
/// per beat, as often as the indicator has to toggle.
pub open spec fn builtin_tick_interval_us(bpm: u64) -> u64 {
    (30_000_000int / (bpm as int)) as u64
}

/// The builtin clock at `bpm` beats per minute, as it starts.
pub open spec fn spec_builtin(bpm: u64) -> Clock {
    Clock::Builtin {
        tick_interval_us: builtin_tick_interval_us(bpm),
        beat_divider: ClockDivider::spec_new(2),
        toggle_indicator_divider: ClockDivider::spec_new(1),
    }
}

/// One tick of `c`: the clock afterwards, and what the tick asks for.
pub open spec fn spec_tick(c: Clock) -> (Clock, ClockTick) {
    match c {
        Clock::Builtin { tick_interval_us, beat_divider, toggle_indicator_divider } => (
            Clock::Builtin {
                tick_interval_us,
                beat_divider: beat_divider.spec_ticked(),
                toggle_indicator_divider: toggle_indicator_divider.spec_ticked(),
            },
            ClockTick {
                beat: beat_divider.spec_pos() == 0,
                toggle_indicator: toggle_indicator_divider.spec_pos() == 0,
            },
        ),
        Clock::Midi {} => (c, ClockTick { beat: false, toggle_indicator: false }),
    }
}

/// The clock `c` after `k` ticks.
pub open spec fn ticked_times(c: Clock, k: nat) -> Clock
    decreases k,
{
    if k == 0 {
        c
    } else {
        spec_tick(ticked_times(c, (k - 1) as nat)).0
    }
}

/// The builtin clock, `k` ticks after its start, still ticks at the same interval, with its
/// beat divider at `k % 2` and its indicator divider at 0.
proof fn lemma_builtin_after(bpm: u64, k: nat)
    ensures
        ticked_times(spec_builtin(bpm), k) matches Clock::Builtin { tick_interval_us, beat_divider, toggle_indicator_divider }
            && tick_interval_us == builtin_tick_interval_us(bpm) && beat_divider.wf()
            && beat_divider.spec_divisor() == 2 && beat_divider.spec_pos() == k % 2
            && toggle_indicator_divider.wf() && toggle_indicator_divider.spec_divisor() == 1
            && toggle_indicator_divider.spec_pos() == 0,
    decreases k,
{
    let b = ClockDivider::spec_new(2);
    b.lemma_spec_divider(2);
    b.lemma_spec_divider(1);
    if k > 0 {
        lemma_builtin_after(bpm, (k - 1) as nat);
        if let Clock::Builtin { beat_divider, toggle_indicator_divider, .. } = ticked_times(
            spec_builtin(bpm),
            (k - 1) as nat,
        ) {
            beat_divider.lemma_spec_divider(2);
            toggle_indicator_divider.lemma_spec_divider(1);
        }
    }
}

/// The MIDI clock stays as it is, tick after tick.
proof fn lemma_midi_after(k: nat)
    ensures
        ticked_times(Clock::Midi {  }, k) == (Clock::Midi {  }),
    decreases k,
{
    if k > 0 {
        lemma_midi_after((k - 1) as nat);
    }
}

/// Ticks over time: the `k`-th tick (counting from 0) of the builtin clock is a beat exactly
/// when `k` is even and always toggles the indicator, so beats come at `bpm` a minute and the
/// first tick is a beat; the MIDI clock never asks for anything.
pub proof fn law_clock_ticks(bpm: u64, k: nat)
    ensures
        spec_tick(ticked_times(spec_builtin(bpm), k)).1 == (ClockTick {
            beat: k % 2 == 0,
            toggle_indicator: true,
        }),
        spec_tick(ticked_times(Clock::Midi {  }, k)).1 == (ClockTick {
            beat: false,
            toggle_indicator: false,
        }),
{
    lemma_builtin_after(bpm, k);
    lemma_midi_after(k);
}

/// The builtin clock ticks twice a beat: at `bpm` beats a minute, its ticks are
/// 30,000,000 / `bpm` microseconds apart, rounded down, so that the interval shrinks as the
/// tempo grows.
pub proof fn law_builtin_tick_interval(bpm: u64)
    requires
        bpm > 0,
    ensures
        spec_builtin(bpm) matches Clock::Builtin { tick_interval_us, .. } && tick_interval_us * bpm
            <= 30_000_000 < (tick_interval_us + 1) * bpm,
{
    let q = 30_000_000int / (bpm as int);
    assert(0 <= q <= 30_000_000 && q * bpm <= 30_000_000 < (q + 1) * bpm) by (nonlinear_arith)
        requires
            bpm > 0,
            q == 30_000_000int / (bpm as int),
    ;
    assert(builtin_tick_interval_us(bpm) == q);
}

impl Clock {
    /// Both dividers hold their invariant.
    pub open spec fn wf(&self) -> bool {
        match self {
            Clock::Builtin { beat_divider, toggle_indicator_divider, .. } => beat_divider.wf()
                && toggle_indicator_divider.wf(),
            Clock::Midi {} => true,
        }
    }

    /// The builtin clock at `bpm` beats per minute.
    pub fn builtin(bpm: u64) -> (r: Clock)
        requires
            bpm > 0,
        ensures
            r.wf(),
            r == spec_builtin(bpm),
            match r {
                Clock::Builtin { tick_interval_us, beat_divider, toggle_indicator_divider } => {
                    &&& tick_interval_us == builtin_tick_interval_us(bpm)
                    &&& beat_divider.spec_divisor() == 2
                    &&& beat_divider.spec_pos() == 0
                    &&& toggle_indicator_divider.spec_divisor() == 1
                    &&& toggle_indicator_divider.spec_pos() == 0
                },
                Clock::Midi {} => false,
            },
            r matches Clock::Builtin { tick_interval_us, .. } && tick_interval_us * bpm <= 30_000_000
                < (tick_interval_us + 1) * bpm,
    {
        proof {
            law_builtin_tick_interval(bpm);
        }
        let tick_interval_us = (1_000_000 * 60 / 2) / bpm;
        Clock::Builtin {
            tick_interval_us,
            beat_divider: ClockDivider::new(2),
            toggle_indicator_divider: ClockDivider::new(1),
        }
    }

    /// The MIDI clock, which never ticks yet.
    pub fn midi() -> (r: Clock)
        ensures
            r.wf(),
            r is Midi,
    {
        Clock::Midi {  }
    }

    /// How often the clock's ticker fires, if it has one.
    pub fn tick_interval_us(&self) -> (r: Option<u64>)
        ensures
            r == match self {
                Clock::Builtin { tick_interval_us, .. } => Some(*tick_interval_us),
                Clock::Midi {} => None,
            },
    {
        match self {
            Clock::Builtin { tick_interval_us, .. } => Some(*tick_interval_us),
            Clock::Midi {  } => None,
        }
    }

    /// Counts one tick of the ticker.
    pub fn tick(&mut self) -> (r: ClockTick)
        requires
            old(self).wf(),
        ensures
            final(self).wf(),
            (*final(self), r) == spec_tick(*old(self)),
            match (*old(self), *final(self)) {
                (
                    Clock::Builtin { tick_interval_us: i0, beat_divider: b0, toggle_indicator_divider: t0 },
                    Clock::Builtin { tick_interval_us: i1, beat_divider: b1, toggle_indicator_divider: t1 },
                ) => {
                    &&& i1 == i0
                    &&& r.beat == (b0.spec_pos() == 0)
                    &&& r.toggle_indicator == (t0.spec_pos() == 0)
                    &&& b1.spec_divisor() == b0.spec_divisor()
                    &&& b1.spec_pos() == (b0.spec_pos() + 1) % b0.spec_divisor()
                    &&& t1.spec_divisor() == t0.spec_divisor()
                    &&& t1.spec_pos() == (t0.spec_pos() + 1) % t0.spec_divisor()
                },
                (Clock::Midi {}, Clock::Midi {}) => !r.beat && !r.toggle_indicator,
                _ => false,
            },
    {
        match self {
            Clock::Builtin { tick_interval_us: _, beat_divider, toggle_indicator_divider } => {
                let beat = beat_divider.tick();
                let toggle_indicator = toggle_indicator_divider.tick();
                ClockTick { beat, toggle_indicator }
            },
            Clock::Midi {  } => ClockTick { beat: false, toggle_indicator: false },
        }
    }
}

/// The clock that runs for clock source `src`: the builtin one at 140 beats per minute,
/// or the MIDI one.
pub fn clock_for(src: ClockSrc) -> (r: Clock)
    ensures
        r.wf(),
        match src {
            ClockSrc::Builtin => match r {
                Clock::Builtin { tick_interval_us, beat_divider, toggle_indicator_divider } => {
                    &&& tick_interval_us == builtin_tick_interval_us(140)
                    &&& beat_divider.spec_divisor() == 2
                    &&& beat_divider.spec_pos() == 0
                    &&& toggle_indicator_divider.spec_divisor() == 1
                    &&& toggle_indicator_divider.spec_pos() == 0
                },
                Clock::Midi {} => false,
            },
            ClockSrc::Midi => r is Midi,
        },
{
    match src {
        ClockSrc::Builtin => Clock::builtin(140),
        ClockSrc::Midi => Clock::midi(),
    }
}

/// The pitch played for a bounce: the x scale for the x walls, the y scale for the y walls,
/// at the bounce's position along the wall.
pub open spec fn bounce_pitch(x_scale: Scale, y_scale: Scale, bounce: (Wall, usize)) -> Pitch {
    match bounce.0 {
        Wall::XLimit => x_scale.0@[bounce.1 as int],
        Wall::YLimit => y_scale.0@[bounce.1 as int],
    }
}

/// The pitches to play for `bounces`, in the order of `Bounces::iter`.
pub fn bounce_notes(bounces: &Bounces, x_scale: &Scale, y_scale: &Scale) -> (r: Vec<Pitch>)
    requires
        bounces.wf(),
        bounces.spec_matrix_width() <= 9,
        bounces.spec_matrix_height() <= 9,
    ensures
        r@ == bounces.entries().map_values(|b: (Wall, usize)| bounce_pitch(*x_scale, *y_scale, b)),
        r@.len() == bounces.entries().len(),
        forall|i: int|
            0 <= i < r@.len() ==> #[trigger] r@[i] == match bounces.entries()[i].0 {
                Wall::XLimit => x_scale.0@[bounces.entries()[i].1 as int],
                Wall::YLimit => y_scale.0@[bounces.entries()[i].1 as int],
            },
{
    let all = bounces.iter();
    let ghost entries = bounces.entries();
    let mut r: Vec<Pitch> = Vec::new();
    let mut i: usize = 0;
    while i < all.len()
        invariant
            all@ == entries,
            entries == bounces.entries(),
            bounces.wf(),
            bounces.spec_matrix_width() <= 9,
            bounces.spec_matrix_height() <= 9,
            i <= all@.len(),
            r@ == entries.take(i as int).map_values(|b: (Wall, usize)| bounce_pitch(*x_scale, *y_scale, b)),
        decreases all@.len() - i,
    {
        let (wall, coord) = all[i];
        proof {
            lemma_entry_in_range(*bounces, i as int);
        }
        let pitch = match wall {
            Wall::XLimit => x_scale.at(coord),
            Wall::YLimit => y_scale.at(coord),
        };
        r.push(pitch);
        i = i + 1;
        assert(r@ =~= entries.take(i as int).map_values(
            |b: (Wall, usize)| bounce_pitch(*x_scale, *y_scale, b),
        ));
    }
    assert(entries.take(i as int) =~= entries);
    proof {
        law_bounce_notes(*bounces, *x_scale, *y_scale);
    }
    r
}

/// The note played for a bounce is the entry of the wall's scale at the bounce's position
/// along the wall: the x scale for the x walls, the y scale for the y walls, one note per
/// bounce, in the order the bounces are listed.
pub proof fn law_bounce_notes(bounces: Bounces, x_scale: Scale, y_scale: Scale)
    ensures
        ({
            let notes = bounces.entries().map_values(
                |b: (Wall, usize)| bounce_pitch(x_scale, y_scale, b),
            );
            &&& notes.len() == bounces.entries().len()
            &&& forall|i: int|
                0 <= i < notes.len() ==> #[trigger] notes[i] == match bounces.entries()[i].0 {
                    Wall::XLimit => x_scale.0@[bounces.entries()[i].1 as int],
                    Wall::YLimit => y_scale.0@[bounces.entries()[i].1 as int],
                }
        }),
{
}

/// Every listed bounce lies on its wall.
pub proof fn lemma_entry_in_range(bounces: Bounces, i: int)
    requires
        bounces.wf(),
        0 <= i < bounces.entries().len(),
    ensures
        bounces.entries()[i].1 < bounces.spec_wall_length(bounces.entries()[i].0),
{
    let xs = crate::automaton::ones(bounces.wall_bits(Wall::XLimit));
    let ys = crate::automaton::ones(bounces.wall_bits(Wall::YLimit));
    if i < xs.len() {
        crate::automaton::lemma_ones_below_set(bounces.wall_bits(Wall::XLimit), 64, i);
        assert(bounces.contains(Wall::XLimit, xs[i] as int));
    } else {
        crate::automaton::lemma_ones_below_set(bounces.wall_bits(Wall::YLimit), 64, i - xs.len());
        assert(bounces.contains(Wall::YLimit, ys[i - xs.len()] as int));
    }
}

/// The pitches played for bounces off the x walls.
pub fn x_scale() -> (r: Scale)
    ensures
        r.0@.map_values(|p: Pitch| p.midi()) == seq![38u8, 40, 41, 43, 45, 46, 48, 50, 52],
{
    let r = Scale([
        Pitch::from_midi(38),
        Pitch::from_midi(40),
        Pitch::from_midi(41),
        Pitch::from_midi(43),
        Pitch::from_midi(45),
        Pitch::from_midi(46),
        Pitch::from_midi(48),
        Pitch::from_midi(50),
        Pitch::from_midi(52),
    ]);
    assert(r.0@.map_values(|p: Pitch| p.midi()) =~= seq![38u8, 40, 41, 43, 45, 46, 48, 50, 52]);
    r
}

/// The pitches played for bounces off the y walls.
pub fn y_scale() -> (r: Scale)
    ensures
        r.0@.map_values(|p: Pitch| p.midi()) == seq![62u8, 64, 65, 67, 69, 70, 72, 74, 76],
{
    let r = Scale([
        Pitch::from_midi(62),
        Pitch::from_midi(64),
        Pitch::from_midi(65),
        Pitch::from_midi(67),
        Pitch::from_midi(69),
        Pitch::from_midi(70),
        Pitch::from_midi(72),
        Pitch::from_midi(74),
        Pitch::from_midi(76),
    ]);
    assert(r.0@.map_values(|p: Pitch| p.midi()) =~= seq![62u8, 64, 65, 67, 69, 70, 72, 74, 76]);
    r
}

/// The bounces of one step of `s`: the x walls first, each wall in increasing position.
pub open spec fn bounce_list(s: State) -> Seq<(Wall, usize)> {
    wall_entries(Wall::XLimit, ones(Seq::new(64, |c: int| s.bounced(Wall::XLimit, c))))
        + wall_entries(Wall::YLimit, ones(Seq::new(64, |c: int| s.bounced(Wall::YLimit, c))))
}

/// What the realtime loop does on one tick of its clock: on a beat, play `notes` (each one
/// stopped and started again), then advance the automaton; and toggle the indicator.
pub struct TickActions {
    pub beat: bool,
    pub notes: Vec<Pitch>,
    pub toggle_indicator: bool,
}

/// The decisions of the realtime loop: its clock and the two scales it plays.
pub struct Realtime {
    clock: Clock,
    x_scale: Scale,
    y_scale: Scale,
}

impl Realtime {
    /// The current clock.
    pub closed spec fn spec_clock(&self) -> Clock {
        self.clock
    }

    /// The scale played for the x walls.
    pub closed spec fn spec_x_scale(&self) -> Scale {
        self.x_scale
    }

    /// The scale played for the y walls.
    pub closed spec fn spec_y_scale(&self) -> Scale {
        self.y_scale
    }

    /// The clock holds its invariant.
    pub open spec fn wf(&self) -> bool {
        self.spec_clock().wf()
    }

    /// The realtime loop as it starts: the builtin clock at 140 beats per minute.
    pub fn new() -> (r: Realtime)
        ensures
            r.wf(),
            r.spec_x_scale().0@.map_values(|p: Pitch| p.midi()) == seq![38u8, 40, 41, 43, 45, 46, 48, 50, 52],
            r.spec_y_scale().0@.map_values(|p: Pitch| p.midi()) == seq![62u8, 64, 65, 67, 69, 70, 72, 74, 76],
            match r.spec_clock() {
                Clock::Builtin { tick_interval_us, beat_divider, toggle_indicator_divider } => {
                    &&& tick_interval_us == builtin_tick_interval_us(140)
                    &&& beat_divider.spec_divisor() == 2
                    &&& beat_divider.spec_pos() == 0
                    &&& toggle_indicator_divider.spec_divisor() == 1
                    &&& toggle_indicator_divider.spec_pos() == 0
                },
                Clock::Midi {} => false,
            },
    {
        Realtime { clock: Clock::builtin(140), x_scale: x_scale(), y_scale: y_scale() }
    }

    /// How often the clock's ticker fires, if it has one.
    pub fn tick_interval_us(&self) -> (r: Option<u64>)
        ensures
            r == match self.spec_clock() {
                Clock::Builtin { tick_interval_us, .. } => Some(tick_interval_us),
                Clock::Midi {} => None,
            },
    {
        self.clock.tick_interval_us()
    }

    /// One tick of the ticker: counts it on the clock and, on a beat, works out the notes of
    /// the bounces that the automaton's next step makes.
    pub fn on_tick(&mut self, model: &DataModel) -> (r: TickActions)
        requires
            old(self).wf(),
            model.wf(),
        ensures
            final(self).wf(),
            final(self).spec_x_scale() == old(self).spec_x_scale(),
            final(self).spec_y_scale() == old(self).spec_y_scale(),
            match (old(self).spec_clock(), final(self).spec_clock()) {
                (
                    Clock::Builtin { tick_interval_us: i0, beat_divider: b0, toggle_indicator_divider: t0 },
                    Clock::Builtin { tick_interval_us: i1, beat_divider: b1, toggle_indicator_divider: t1 },
                ) => {
                    &&& i1 == i0
                    &&& r.beat == (b0.spec_pos() == 0)
                    &&& r.toggle_indicator == (t0.spec_pos() == 0)
                    &&& b1.spec_divisor() == b0.spec_divisor()
                    &&& b1.spec_pos() == (b0.spec_pos() + 1) % b0.spec_divisor()
                    &&& t1.spec_divisor() == t0.spec_divisor()
                    &&& t1.spec_pos() == (t0.spec_pos() + 1) % t0.spec_divisor()
                },
                (Clock::Midi {}, Clock::Midi {}) => !r.beat && !r.toggle_indicator,
                _ => false,
            },
            r.notes@ == if r.beat {
                bounce_list(model.automaton()).map_values(
                    |b: (Wall, usize)| bounce_pitch(old(self).spec_x_scale(), old(self).spec_y_scale(), b),
                )
            } else {
                Seq::empty()
            },
    {
        let tick = self.clock.tick();
        let mut notes: Vec<Pitch> = Vec::new();
        if tick.beat {
            proof {
                model.lemma_wf();
            }
            let state = model.automaton_state();
            let (_, bounces) = state.next();
            proof {
                let s = model.automaton();
                assert forall|x: int, y: int| #[trigger] state.collided_at(x, y) == s.collided_at(x, y) by {
                    assert(state.cell(x, y) == s.cell(x, y));
                }
                assert forall|wall: Wall, c: int| state.bounced(wall, c) == s.bounced(wall, c) by {
                    if state.bounced(wall, c) {
                        let (ax, ay, ah) = choose|ax: int, ay: int, ah: Heading| #[trigger]
                            state.bounces_off(ax, ay, ah, wall, c);
                        assert(s.bounces_off(ax, ay, ah, wall, c));
                    }
                    if s.bounced(wall, c) {
                        let (ax, ay, ah) = choose|ax: int, ay: int, ah: Heading| #[trigger]
                            s.bounces_off(ax, ay, ah, wall, c);
                        assert(state.bounces_off(ax, ay, ah, wall, c));
                    }
                }
                assert forall|wall: Wall, c: int| 0 <= c < 64 implies #[trigger] bounces.wall_bits(wall)[c]
                    == s.bounced(wall, c) by {
                    assert(bounces.contains(wall, c) == state.bounced(wall, c));
                }
                assert(bounces.wall_bits(Wall::XLimit) =~= Seq::new(64, |c: int| s.bounced(Wall::XLimit, c)));
                assert(bounces.wall_bits(Wall::YLimit) =~= Seq::new(64, |c: int| s.bounced(Wall::YLimit, c)));
            }
            notes = bounce_notes(&bounces, &self.x_scale, &self.y_scale);
        }
        TickActions { beat: tick.beat, notes, toggle_indicator: tick.toggle_indicator }
    }

    /// Follows a change of the data model: a new clock source brings its own clock.
    pub fn on_datamodel_change(&mut self, change: Change, model: &DataModel)
        requires
            old(self).wf(),
            model.wf(),
        ensures
            final(self).wf(),
            final(self).spec_x_scale() == old(self).spec_x_scale(),
            final(self).spec_y_scale() == old(self).spec_y_scale(),
            match change {
                Change::SetClockSrc(_) => match model.spec_clock_src() {
                    ClockSrc::Builtin => match final(self).spec_clock() {
                        Clock::Builtin { tick_interval_us, beat_divider, toggle_indicator_divider } => {
                            &&& tick_interval_us == builtin_tick_interval_us(140)
                            &&& beat_divider.spec_divisor() == 2
                            &&& beat_divider.spec_pos() == 0
                            &&& toggle_indicator_divider.spec_divisor() == 1
                            &&& toggle_indicator_divider.spec_pos() == 0
                        },
                        Clock::Midi {} => false,
                    },
                    ClockSrc::Midi => final(self).spec_clock() is Midi,
                },
                _ => final(self).spec_clock() == old(self).spec_clock(),
            },
    {
        match change {
            Change::SetClockSrc(_) => {
                self.clock = clock_for(model.clock_src());
            },
            _ => {},
        }
    }
}

/// The builtin clock ticks twice per beat: counting from its start, tick `n` is a beat
/// exactly when `n` is even, and every tick toggles the indicator, so the indicator changes
/// twice per beat.
pub proof fn lemma_builtin_clock_rates(n: nat)
    ensures
        (divider_pos(2, n) == 0) == (n % 2 == 0),
        divider_pos(1, n) == 0,
{
    lemma_divider_phase(2, n);
    lemma_divider_phase(1, n);
}

} // verus!
