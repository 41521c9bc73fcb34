//! The state of the chart application and how each user action changes it.
use crate::positions::Positions;
use vstd::prelude::*;

verus! {

/// Which derived chart is shown: the base chart, the chart of one
/// thirty-degree cycle, or a harmonic chart.
#[derive(Clone, Copy, Debug, PartialEq, Eq, Structural)]
pub enum HarmonicCycle {
    Base,
    Cycle(u16),
    Harmonic(u16),
}

impl Default for HarmonicCycle {
    fn default() -> (r: Self)
        ensures
            r == HarmonicCycle::Base,
    {
        HarmonicCycle::Base
    }
}

impl HarmonicCycle {
    /// The harmonic and the cycle that the selectors show: `(1, 0)` for the
    /// base chart, `(h, 0)` for harmonic `h`, `(1, c)` for cycle `c`.
    pub fn harmonic_and_cycle(&self) -> (r: (u16, u16))
        ensures
            r == (match *self {
                HarmonicCycle::Base => (1u16, 0u16),
                HarmonicCycle::Harmonic(h) => (h, 0u16),
                HarmonicCycle::Cycle(c) => (1u16, c),
            }),
    {
        match self {
            HarmonicCycle::Base => (1, 0),
            HarmonicCycle::Harmonic(h) => (*h, 0),
            HarmonicCycle::Cycle(c) => (1, *c),
        }
    }
}

/// A user action.
#[derive(Clone, Copy, Debug)]
pub enum Msg {
    Noop,
    ToggleAspect,
    CycleChange(u16),
    HarmonicChange(u16),
    PlanetsChange(u16),
    NewPositions(Positions),
}

/// The state of the chart application: whether aspects are drawn, which
/// chart is shown, how many bodies are drawn, and the positions.
#[derive(Clone, Copy, Debug)]
pub struct App {
    pub aspect: bool,
    pub harmonic_cycle: HarmonicCycle,
    pub planets: u16,
    pub positions: Positions,
}

/// The state after `msg`, and whether the chart must be drawn again. Cycle 0
/// and harmonic 1 both mean the base chart; `Noop` changes nothing and asks
/// for no drawing; every other action asks for one.
pub open spec fn next_state(s: App, msg: Msg) -> (App, bool) {
    match msg {
        Msg::Noop => (s, false),
        Msg::ToggleAspect => (App { aspect: !s.aspect, ..s }, true),
        Msg::CycleChange(c) => (
            App {
                harmonic_cycle: if c == 0 {
                    HarmonicCycle::Base
                } else {
                    HarmonicCycle::Cycle(c)
                },
                ..s
            },
            true,
        ),
        Msg::HarmonicChange(h) => (
            App {
                harmonic_cycle: if h == 1 {
                    HarmonicCycle::Base
                } else {
                    HarmonicCycle::Harmonic(h)
                },
                ..s
            },
            true,
        ),
        Msg::PlanetsChange(n) => (App { planets: n, ..s }, true),
        Msg::NewPositions(p) => (App { positions: p, ..s }, true),
    }
}

impl App {
    /// The state when the chart opens: no aspects, the base chart, nine
    /// bodies, every position at zero.
    pub fn new() -> (r: Self)
        ensures
            r.aspect == false,
            r.harmonic_cycle == HarmonicCycle::Base,
            r.planets == 9,
            forall|i: int| 0 <= i < 13 ==> #[trigger] r.positions.0@[i] == 0,
    {
        App {
            aspect: false,
            harmonic_cycle: HarmonicCycle::default(),
            planets: 9,
            positions: Positions::default(),
        }
    }

    /// Applies `msg` and tells whether the chart must be drawn again.
    pub fn update(&mut self, msg: Msg) -> (redraw: bool)
        ensures
            (*final(self), redraw) == next_state(*old(self), msg),
    {
        match msg {
            Msg::CycleChange(0) | Msg::HarmonicChange(1) => {
                self.harmonic_cycle = HarmonicCycle::Base;
            },
            Msg::CycleChange(cycle) => {
                self.harmonic_cycle = HarmonicCycle::Cycle(cycle);
            },
            Msg::HarmonicChange(harmonic) => {
                self.harmonic_cycle = HarmonicCycle::Harmonic(harmonic);
            },
            Msg::Noop => {
                return false;
            },
            Msg::ToggleAspect => {
                self.aspect = !self.aspect;
            },
            Msg::NewPositions(positions) => {
                self.positions = positions;
            },
            Msg::PlanetsChange(planets) => {
                self.planets = planets;
            },
        }
        true
    }
}

} // verus!
