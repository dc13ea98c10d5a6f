//! The evolution driver: the decision core of the background ticking loop.
//!
//! The driver is a two-state machine, idle or running, that owns a private
//! working copy of the universe while running. The surrounding runtime asks
//! it to `step` once per interval: while running, a step ticks the working
//! copy and hands back the generation to publish; once halted, a step
//! produces nothing, so no generation is ever published after a halt is
//! observed. The waiting, the channel and the clock live outside; every
//! decision lives here.

use vstd::prelude::*;

use crate::universe::Universe;

verus! {

/// The lowest accepted evolution speed, in generations per second.
pub const MIN_EVOLUTION_SPEED: u32 = 1;

/// The highest accepted evolution speed, in generations per second.
pub const MAX_EVOLUTION_SPEED: u32 = 100;

/// Coordinates the periodic evolution of a universe: idle or running, with
/// a private working copy of the grid while running.
#[derive(Debug)]
pub struct EvolutionDriver {
    speed: u32,
    running: bool,
    working: Option<Universe>,
}

impl EvolutionDriver {
    /// The evolution speed, as seen by specifications.
    pub closed spec fn spec_speed(self) -> u32 {
        self.speed
    }

    /// Whether a running episode is active, as seen by specifications.
    pub closed spec fn spec_running(self) -> bool {
        self.running
    }

    /// The private working copy, as seen by specifications.
    pub closed spec fn spec_working(self) -> Option<Universe> {
        self.working
    }

    /// The structural invariant of a driver: the speed lies in the accepted
    /// band, a running driver owns a well-formed working copy, and an idle
    /// driver owns none.
    pub open spec fn well_formed(self) -> bool {
        &&& MIN_EVOLUTION_SPEED <= self.spec_speed() <= MAX_EVOLUTION_SPEED
        &&& match self.spec_working() {
            Some(w) => self.spec_running() && w.well_formed(),
            None => !self.spec_running(),
        }
    }

    /// Builds an idle driver with the given evolution speed.
    pub fn new(speed: u32) -> (r: EvolutionDriver)
        requires
            MIN_EVOLUTION_SPEED <= speed <= MAX_EVOLUTION_SPEED,
        ensures
            r.well_formed(),
            r.spec_speed() == speed,
            !r.spec_running(),
            r.spec_working() is None,
    {
        EvolutionDriver { speed, running: false, working: None }
    }

    /// The evolution speed, in generations per second.
    pub fn evolution_speed(&self) -> (r: u32)
        ensures
            r == self.spec_speed(),
    {
        self.speed
    }

    /// Sets the evolution speed; it takes effect at the next interval
    /// computation.
    pub fn set_evolution_speed(&mut self, value: u32)
        requires
            MIN_EVOLUTION_SPEED <= value <= MAX_EVOLUTION_SPEED,
        ensures
            final(self).spec_speed() == value,
            final(self).spec_running() == old(self).spec_running(),
            final(self).spec_working() == old(self).spec_working(),
            old(self).well_formed() ==> final(self).well_formed(),
    {
        self.speed = value;
    }

    /// The pause between generations that the speed dictates, in
    /// milliseconds.
    pub fn interval_ms(&self) -> (r: u64)
        requires
            self.well_formed(),
        ensures
            r == 1000int / self.spec_speed() as int,
            1 <= r <= 1000,
    {
        proof {
            let s = self.spec_speed() as int;
            assert(10 <= 1000int / s <= 1000) by (nonlinear_arith)
                requires
                    1 <= s <= 100,
            ;
        }
        1000u64 / (self.speed as u64)
    }

    /// Whether a running episode is active.
    pub fn is_running(&self) -> (r: bool)
        ensures
            r == self.spec_running(),
    {
        self.running
    }

    /// Starts a running episode over a private copy of the given universe,
    /// and reports whether one was started. Asking to run while already
    /// running is a no-op: only one episode may exist at a time, so the
    /// driver and its working copy are then left exactly as they were.
    pub fn run(&mut self, universe: &Universe) -> (started: bool)
        requires
            old(self).well_formed(),
            universe.well_formed(),
        ensures
            final(self).well_formed(),
            final(self).spec_speed() == old(self).spec_speed(),
            final(self).spec_running(),
            started == !old(self).spec_running(),
            old(self).spec_running() ==> final(self).spec_working() == old(self).spec_working(),
            !old(self).spec_running() ==> {
                &&& final(self).spec_working() matches Some(w)
                &&& w.spec_rows() == universe.spec_rows()
                &&& w.spec_columns() == universe.spec_columns()
                &&& w.spec_cells() == universe.spec_cells()
                &&& w.spec_heat() == universe.spec_heat()
                &&& w.spec_freeze_rate() == universe.spec_freeze_rate()
                &&& w.spec_generations() == universe.spec_generations()
                &&& w.spec_last_delta() == universe.spec_last_delta()
            },
    {
        if self.running {
            false
        } else {
            self.working = Some(universe.duplicate());
            self.running = true;
            true
        }
    }

    /// Ends the running episode, dropping the working copy. The next `step`
    /// publishes nothing, so no generation escapes after a halt.
    pub fn halt(&mut self)
        ensures
            !final(self).spec_running(),
            final(self).spec_working() is None,
            final(self).spec_speed() == old(self).spec_speed(),
            old(self).well_formed() ==> final(self).well_formed(),
    {
        self.running = false;
        self.working = None;
    }

    /// Starts a running episode when idle, and halts the active one when
    /// running.
    pub fn toggle_run(&mut self, universe: &Universe)
        requires
            old(self).well_formed(),
            universe.well_formed(),
        ensures
            final(self).well_formed(),
            final(self).spec_speed() == old(self).spec_speed(),
            final(self).spec_running() == !old(self).spec_running(),
            old(self).spec_running() ==> final(self).spec_working() is None,
            !old(self).spec_running() ==> final(self).spec_working() is Some,
    {
        if self.running {
            self.halt();
        } else {
            self.run(universe);
        }
    }

    /// Performs one scheduled step: while running, ticks the private
    /// working copy and hands back the generation to publish; while idle,
    /// produces nothing. A step never publishes after a halt: a published
    /// generation proves the driver was running when the step began.
    ///
    /// The one machine limit: a working copy whose generation counter has
    /// reached its ceiling cannot tick again, so the driver halts instead
    /// of publishing.
    pub fn step(&mut self) -> (r: Option<Universe>)
        requires
            old(self).well_formed(),
        ensures
            final(self).well_formed(),
            final(self).spec_speed() == old(self).spec_speed(),
            match r {
                Some(published) => {
                    &&& old(self).spec_running()
                    &&& final(self).spec_running()
                    &&& old(self).spec_working() matches Some(w) && {
                        &&& published.well_formed()
                        &&& published.spec_rows() == w.spec_rows()
                        &&& published.spec_columns() == w.spec_columns()
                        &&& published.spec_generations() == w.spec_generations() + 1
                        &&& forall|row: int, column: int|
                            w.in_bounds(row, column) ==> #[trigger] published.spec_cell_at(
                                row,
                                column,
                            ) == w.spec_next_state(row, column)
                        &&& forall|row: int, column: int|
                            w.in_bounds(row, column) ==> #[trigger] published.spec_heat_at(
                                row,
                                column,
                            ) == w.spec_next_heat(row, column)
                        &&& published.spec_last_delta() == Some(w.spec_tick_delta())
                        &&& final(self).spec_working() matches Some(w2) && {
                            &&& w2.spec_cells() == published.spec_cells()
                            &&& w2.spec_heat() == published.spec_heat()
                            &&& w2.spec_generations() == published.spec_generations()
                        }
                    }
                },
                None => {
                    &&& !final(self).spec_running()
                    &&& !old(self).spec_running() || (old(self).spec_working() matches Some(w)
                        && w.spec_generations() == u64::MAX)
                },
            },
    {
        if !self.running {
            return None;
        }
        let taken = self.working.take();
        match taken {
            Some(mut w) => {
                if w.generations() == u64::MAX {
                    self.running = false;
                    self.working = None;
                    None
                } else {
                    let ghost w0 = w;
                    w.tick();
                    let published = w.duplicate();
                    proof {
                        assert forall|row: int, column: int| w0.in_bounds(row, column) implies #[trigger] published.spec_cell_at(
                            row,
                            column,
                        ) == w0.spec_next_state(row, column) by {
                            assert(w.spec_cell_at(row, column) == w0.spec_next_state(row, column));
                        }
                        assert forall|row: int, column: int| w0.in_bounds(row, column) implies #[trigger] published.spec_heat_at(
                            row,
                            column,
                        ) == w0.spec_next_heat(row, column) by {
                            assert(w.spec_heat_at(row, column) == w0.spec_next_heat(row, column));
                        }
                    }
                    self.working = Some(w);
                    Some(published)
                }
            },
            None => {
                // A running driver always owns a working copy.
                proof {
                    assert(false);
                }
                self.running = false;
                None
            },
        }
    }
}

} // verus!
