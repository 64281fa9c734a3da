use crate::automaton::{glider_set, step_gliders, Heading, State};
use vstd::prelude::*;

verus! {

/// Where the clock that drives the automaton comes from.
#[derive(Clone, Copy, Debug, PartialEq, Eq, Structural, Hash)]
pub enum ClockSrc {
    Builtin,
    Midi,
}

/// The position of a clock source in the list of all of them.
pub open spec fn spec_ordinal(c: ClockSrc) -> usize {
    match c {
        ClockSrc::Builtin => 0,
        ClockSrc::Midi => 1,
    }
}

/// The clock source at position `n` of the list of all of them, if there is one.
pub open spec fn spec_from_ordinal(n: usize) -> Option<ClockSrc> {
    if n == 0 {
        Some(ClockSrc::Builtin)
    } else if n == 1 {
        Some(ClockSrc::Midi)
    } else {
        None
    }
}

impl ClockSrc {
    /// The position of this clock source in the list of all of them.
    pub fn ordinal(&self) -> (r: usize)
        ensures
            r == spec_ordinal(*self),
    {
        match self {
            ClockSrc::Builtin => 0,
            ClockSrc::Midi => 1,
        }
    }

    /// The clock source at position `n`, if there is one.
    pub fn from_ordinal(n: usize) -> (r: Option<ClockSrc>)
        ensures
            r == spec_from_ordinal(n),
    {
        if n == 0 {
            Some(ClockSrc::Builtin)
        } else if n == 1 {
            Some(ClockSrc::Midi)
        } else {
            None
        }
    }
}

/// A clock source is found again at its own position, and each position is held by
/// at most one clock source.
pub proof fn lemma_ordinal_roundtrip(c: ClockSrc, n: usize)
    ensures
        spec_from_ordinal(spec_ordinal(c)) == Some(c),
        spec_from_ordinal(n) matches Some(d) ==> spec_ordinal(d) == n,
{
}

/// A change to the data model.
#[derive(Clone, Copy, Debug, PartialEq, Eq, Structural)]
pub enum Change {
    AdvanceAutomatonState,
    SetClockSrc(ClockSrc),
    ToggleClockIndicator,
}

/// The gliders that the automaton starts with.
pub open spec fn default_gliders() -> Seq<((usize, usize), Heading)> {
    seq![
        ((5, 0), Heading::NegY),
        ((1, 1), Heading::PosX),
        ((2, 2), Heading::PosX),
        ((0, 3), Heading::PosY),
        ((4, 3), Heading::NegX),
        ((2, 5), Heading::NegX),
        ((3, 5), Heading::NegY),
        ((4, 5), Heading::PosY),
        ((2, 6), Heading::PosY),
        ((7, 6), Heading::PosX),
        ((5, 7), Heading::NegX),
        ((7, 7), Heading::PosY),
        ((5, 8), Heading::PosX),
    ]
}

/// Whether `s` is the nine by nine grid holding exactly the gliders of `default_gliders`.
pub open spec fn is_default_automaton(s: State) -> bool {
    &&& s.wf()
    &&& s.spec_width() == 9
    &&& s.spec_height() == 9
    &&& forall|x: int, y: int, h: Heading|
        0 <= x < 9 && 0 <= y < 9 ==> (#[trigger] s.cell(x, y).contains(h) <==> exists|i: int|
            0 <= i < default_gliders().len() && #[trigger] default_gliders()[i] == (
                (x as usize, y as usize),
                h,
            ))
}

/// The gliders of the automaton the data model starts with.
pub open spec fn default_glider_set() -> Set<(int, int, Heading)> {
    Set::new(
        |g: (int, int, Heading)|
            0 <= g.0 < 9 && 0 <= g.1 < 9 && exists|i: int|
                0 <= i < default_gliders().len() && #[trigger] default_gliders()[i] == (
                    (g.0 as usize, g.1 as usize),
                    g.2,
                ),
    )
}

/// The automaton the data model starts with.
pub fn default_automaton_state() -> (r: State)
    ensures
        is_default_automaton(r),
{
    let gliders: Vec<((usize, usize), Heading)> = vec![
        ((5, 0), Heading::NegY),
        ((1, 1), Heading::PosX),
        ((2, 2), Heading::PosX),
        ((0, 3), Heading::PosY),
        ((4, 3), Heading::NegX),
        ((2, 5), Heading::NegX),
        ((3, 5), Heading::NegY),
        ((4, 5), Heading::PosY),
        ((2, 6), Heading::PosY),
        ((7, 6), Heading::PosX),
        ((5, 7), Heading::NegX),
        ((7, 7), Heading::PosY),
        ((5, 8), Heading::PosX),
    ];
    assert(gliders@ == default_gliders());
    State::new(9, 9, gliders.as_slice())
}

/// The state that the terminal and the realtime loop share: the automaton, the clock
/// indicator and the clock source.
pub struct DataModel {
    automaton: State,
    clock_indicator_lit: bool,
    clock_src: usize,
}

impl View for DataModel {
    /// The gliders of the automaton, whether the indicator is lit, and the clock source.
    type V = (Set<(int, int, Heading)>, bool, ClockSrc);

    open spec fn view(&self) -> (Set<(int, int, Heading)>, bool, ClockSrc) {
        (glider_set(self.automaton()), self.spec_clock_indicator_lit(), self.spec_clock_src())
    }
}

/// The view of a data model after `change`, from its view `v` before.
pub open spec fn change_applied(v: (Set<(int, int, Heading)>, bool, ClockSrc), change: Change) -> (
    Set<(int, int, Heading)>,
    bool,
    ClockSrc,
) {
    match change {
        Change::AdvanceAutomatonState => (step_gliders(9, 9, v.0), v.1, v.2),
        Change::SetClockSrc(src) => (v.0, v.1, src),
        Change::ToggleClockIndicator => (v.0, !v.1, v.2),
    }
}

/// The view of the data model as it starts.
pub open spec fn initial_view() -> (Set<(int, int, Heading)>, bool, ClockSrc) {
    (default_glider_set(), false, ClockSrc::Builtin)
}

/// The view of the data model after the changes `changes`, applied in order from the start.
pub open spec fn view_after_changes(changes: Seq<Change>) -> (Set<(int, int, Heading)>, bool, ClockSrc)
    decreases changes.len(),
{
    if changes.len() == 0 {
        initial_view()
    } else {
        change_applied(view_after_changes(changes.drop_last()), changes.last())
    }
}

/// How many of `changes` advance the automaton.
pub open spec fn advance_count(changes: Seq<Change>) -> nat
    decreases changes.len(),
{
    if changes.len() == 0 {
        0
    } else {
        advance_count(changes.drop_last()) + if changes.last() == Change::AdvanceAutomatonState {
            1nat
        } else {
            0nat
        }
    }
}

/// How many of `changes` toggle the clock indicator.
pub open spec fn toggle_count(changes: Seq<Change>) -> nat
    decreases changes.len(),
{
    if changes.len() == 0 {
        0
    } else {
        toggle_count(changes.drop_last()) + if changes.last() == Change::ToggleClockIndicator {
            1nat
        } else {
            0nat
        }
    }
}

/// The clock source that the last of `changes` that sets one sets, if any does.
pub open spec fn last_clock_src(changes: Seq<Change>) -> Option<ClockSrc>
    decreases changes.len(),
{
    if changes.len() == 0 {
        None
    } else {
        match changes.last() {
            Change::SetClockSrc(src) => Some(src),
            _ => last_clock_src(changes.drop_last()),
        }
    }
}

/// The gliders of the default automaton advanced `k` times.
pub open spec fn stepped_default(k: nat) -> Set<(int, int, Heading)>
    decreases k,
{
    if k == 0 {
        default_glider_set()
    } else {
        step_gliders(9, 9, stepped_default((k - 1) as nat))
    }
}

/// The data model over time: after any changes from its start, the automaton is the default
/// one advanced once per `AdvanceAutomatonState`, the indicator is lit exactly when it was
/// toggled an odd number of times, and the clock source is the one last set, or the builtin
/// one if none was.
pub proof fn law_data_model_history(changes: Seq<Change>)
    ensures
        view_after_changes(changes) == (
            stepped_default(advance_count(changes)),
            toggle_count(changes) % 2 == 1,
            match last_clock_src(changes) {
                Some(src) => src,
                None => ClockSrc::Builtin,
            },
        ),
    decreases changes.len(),
{
    if changes.len() > 0 {
        law_data_model_history(changes.drop_last());
    }
}

impl DataModel {
    /// The automaton.
    pub closed spec fn automaton(&self) -> State {
        self.automaton
    }

    /// Whether the clock indicator is lit.
    pub closed spec fn spec_clock_indicator_lit(&self) -> bool {
        self.clock_indicator_lit
    }

    /// The clock source.
    pub closed spec fn spec_clock_src(&self) -> ClockSrc {
        spec_from_ordinal(self.clock_src).unwrap()
    }

    /// The automaton is a nine by nine grid, and the stored clock source is a valid one.
    pub closed spec fn wf(&self) -> bool {
        &&& self.automaton.wf()
        &&& self.automaton.spec_width() == 9
        &&& self.automaton.spec_height() == 9
        &&& spec_from_ordinal(self.clock_src) is Some
    }

    /// What the data model's invariant gives its users.
    pub proof fn lemma_wf(&self)
        requires
            self.wf(),
        ensures
            self.automaton().wf(),
            self.automaton().spec_width() == 9,
            self.automaton().spec_height() == 9,
    {
    }

    /// The starting data model: the default automaton, the indicator dark, the builtin clock.
    pub fn new() -> (r: DataModel)
        ensures
            r.wf(),
            r@ == initial_view(),
            is_default_automaton(r.automaton()),
            !r.spec_clock_indicator_lit(),
            r.spec_clock_src() == ClockSrc::Builtin,
    {
        let r = DataModel {
            automaton: default_automaton_state(),
            clock_indicator_lit: false,
            clock_src: ClockSrc::Builtin.ordinal(),
        };
        assert(glider_set(r.automaton) =~= default_glider_set());
        r
    }

    /// A copy of the automaton.
    pub fn automaton_state(&self) -> (r: State)
        requires
            self.wf(),
        ensures
            r.wf(),
            r.spec_width() == self.automaton().spec_width(),
            r.spec_height() == self.automaton().spec_height(),
            forall|x: int, y: int| #[trigger] r.cell(x, y) == self.automaton().cell(x, y),
            glider_set(r) == self@.0,
    {
        let r = self.automaton.clone();
        assert(glider_set(r) =~= self@.0);
        r
    }

    /// Whether the clock indicator is lit.
    pub fn clock_indicator_lit(&self) -> (r: bool)
        ensures
            r == self.spec_clock_indicator_lit(),
    {
        self.clock_indicator_lit
    }

    /// The clock source.
    pub fn clock_src(&self) -> (r: ClockSrc)
        requires
            self.wf(),
        ensures
            r == self.spec_clock_src(),
    {
        ClockSrc::from_ordinal(self.clock_src).unwrap()
    }
}

impl Change {
    /// Applies the change to the data model.
    pub fn apply(self, model: &mut DataModel)
        requires
            old(model).wf(),
        ensures
            final(model).wf(),
            final(model)@ == change_applied(old(model)@, self),
            match self {
                Change::AdvanceAutomatonState => {
                    &&& final(model).automaton().spec_width() == 9
                    &&& final(model).automaton().spec_height() == 9
                    &&& forall|x: int, y: int, h: Heading|
                        0 <= x < 9 && 0 <= y < 9 ==> (#[trigger] final(model).automaton().cell(
                            x,
                            y,
                        ).contains(h) <==> old(model).automaton().arrives(x, y, h))
                    &&& final(model).spec_clock_indicator_lit() == old(
                        model,
                    ).spec_clock_indicator_lit()
                    &&& final(model).spec_clock_src() == old(model).spec_clock_src()
                },
                Change::SetClockSrc(src) => {
                    &&& final(model).automaton() == old(model).automaton()
                    &&& final(model).spec_clock_indicator_lit() == old(
                        model,
                    ).spec_clock_indicator_lit()
                    &&& final(model).spec_clock_src() == src
                },
                Change::ToggleClockIndicator => {
                    &&& final(model).automaton() == old(model).automaton()
                    &&& final(model).spec_clock_indicator_lit() == !old(
                        model,
                    ).spec_clock_indicator_lit()
                    &&& final(model).spec_clock_src() == old(model).spec_clock_src()
                },
            },
    {
        match self {
            Change::AdvanceAutomatonState => {
                let (next, _) = model.automaton.next();
                model.automaton = next;
            },
            Change::SetClockSrc(src) => {
                model.clock_src = src.ordinal();
            },
            Change::ToggleClockIndicator => {
                model.clock_indicator_lit = !model.clock_indicator_lit;
            },
        }
    }
}

} // verus!
