//! The simulation controller: owns the current grid, serializes user edits
//! and resizes against background steps, and decides when a background step
//! may start. The embedding program supplies the actual lock, timer and
//! thread; every decision it acts on is taken here.

use vstd::prelude::*;
use crate::board::{lemma_flat_index_in_range, Board};
use crate::config::SimulationConfig;
use crate::rules::Rules;
use crate::step::{neighbor_sums_bounded, next_cell, next_step};

verus! {

/// The shared simulation state: the live grid, one pending manual step
/// request, and the number of background steps currently in flight, which
/// the scheduling discipline keeps at most one.
pub struct SimulationController {
    /// The grid all actors read and write.
    pub board: Board,
    /// Whether one extra step should run at the next scheduling opportunity
    /// even if the simulation is not auto-running.
    pub step_requested: bool,
    /// How many background steps are between start and completion right now.
    pub steps_in_flight: u32,
}

/// Whether a tick taken in state `s` starts a background step: only when none
/// is in flight and the simulation auto-runs or a step was requested.
pub open spec fn tick_starts(s: SimulationController, auto_run: bool) -> bool {
    s.steps_in_flight == 0 && (auto_run || s.step_requested)
}

/// The controller state after a tick: a started step is counted in flight and
/// consumes the pending request; otherwise nothing changes.
pub open spec fn tick_post(s: SimulationController, auto_run: bool) -> SimulationController {
    if tick_starts(s, auto_run) {
        SimulationController { step_requested: false, steps_in_flight: 1, ..s }
    } else {
        s
    }
}

/// The cell contents after one frame of foreground work: a changed configured
/// size empties the grid first, then the paint tool, when it is down, in use
/// and away from the settings window, writes its one cell.
pub open spec fn frame_cell(
    s: SimulationController,
    config: SimulationConfig,
    mouse_down: bool,
    paint_x: int,
    paint_y: int,
    x: int,
    y: int,
) -> int {
    let base = if s.wants_resize(config) {
        0
    } else {
        s.board.cell(x, y)
    };
    if mouse_down && !config.hovered && (config.drawing || config.erasing) && x == paint_x && y
        == paint_y {
        if config.drawing {
            1
        } else {
            0
        }
    } else {
        base
    }
}

/// At most one background step is ever in flight: a tick never raises the
/// count above one, and a tick that starts a step leaves a state in which the
/// next tick starts nothing, whatever it is asked, until the running step
/// completes.
pub proof fn lemma_at_most_one_step_in_flight(
    s: SimulationController,
    auto_first: bool,
    auto_second: bool,
)
    requires
        s.steps_in_flight <= 1,
    ensures
        tick_post(s, auto_first).steps_in_flight <= 1,
        tick_starts(s, auto_first) ==> !tick_starts(tick_post(s, auto_first), auto_second),
{
}

impl SimulationController {
    /// Structural invariant: a well-formed grid and never more than one step
    /// in flight.
    pub open spec fn wf(self) -> bool {
        &&& self.board.wf()
        &&& self.steps_in_flight <= 1
    }

    /// Whether the configured size differs from the grid's current one.
    pub open spec fn wants_resize(self, config: SimulationConfig) -> bool {
        self.board.cx != config.board_width || self.board.cy != config.board_height
    }

    /// A controller over a fresh all-dead grid, with nothing requested and
    /// nothing in flight.
    pub fn new(width: i32, height: i32) -> (controller: SimulationController)
        requires
            0 < width,
            0 < height,
            width * height <= i32::MAX,
        ensures
            controller.wf(),
            controller.board.cx == width,
            controller.board.cy == height,
            controller.board.all_dead(),
            !controller.step_requested,
            controller.steps_in_flight == 0,
    {
        SimulationController {
            board: Board::new(width, height),
            step_requested: false,
            steps_in_flight: 0,
        }
    }

    /// Replaces the grid wholesale with an all-dead grid of exactly the new
    /// dimensions, discarding all prior cell state.
    pub fn resize(&mut self, width: i32, height: i32)
        requires
            old(self).wf(),
            0 < width,
            0 < height,
            width * height <= i32::MAX,
        ensures
            final(self).wf(),
            final(self).board.cx == width,
            final(self).board.cy == height,
            final(self).board.all_dead(),
            final(self).step_requested == old(self).step_requested,
            final(self).steps_in_flight == old(self).steps_in_flight,
    {
        self.board = Board::new(width, height);
    }

    /// Writes one cell at unwrapped, in-range coordinates (the paint tool).
    pub fn paint(&mut self, x: i32, y: i32, state: i8)
        requires
            old(self).wf(),
            0 <= x < old(self).board.cx,
            0 <= y < old(self).board.cy,
            0 <= state,
        ensures
            final(self).wf(),
            final(self).board.cx == old(self).board.cx,
            final(self).board.cy == old(self).board.cy,
            final(self).board.cell(x as int, y as int) == state,
            forall|x2: int, y2: int|
                0 <= x2 < old(self).board.cx && 0 <= y2 < old(self).board.cy && !(x2 == x && y2
                    == y) ==> final(self).board.cell(x2, y2) == old(self).board.cell(x2, y2),
            final(self).step_requested == old(self).step_requested,
            final(self).steps_in_flight == old(self).steps_in_flight,
    {
        self.board.set_cell_at_position(x, y, state);
    }

    /// Marks that one extra step should run at the next scheduling
    /// opportunity.
    pub fn request_step(&mut self)
        requires
            old(self).wf(),
        ensures
            final(self).wf(),
            *final(self) == (SimulationController { step_requested: true, ..*old(self) }),
    {
        self.step_requested = true;
    }

    /// The scheduling decision of one frame: reports whether a background
    /// step starts now. One starts only when none is in flight and the
    /// simulation auto-runs or a step was requested; starting consumes the
    /// request and counts the step as in flight.
    pub fn tick(&mut self, auto_run: bool) -> (start_step: bool)
        requires
            old(self).wf(),
        ensures
            final(self).wf(),
            start_step == tick_starts(*old(self), auto_run),
            *final(self) == tick_post(*old(self), auto_run),
            final(self).board == old(self).board,
    {
        if self.steps_in_flight == 0 && (auto_run || self.step_requested) {
            self.step_requested = false;
            self.steps_in_flight = 1;
            true
        } else {
            false
        }
    }

    /// Performs the one background step that a tick started: computes the
    /// next generation from the current grid, installs it, and counts the
    /// step as completed.
    pub fn run_step(&mut self, rules: &Rules)
        requires
            old(self).wf(),
            old(self).steps_in_flight == 1,
            rules.wf(),
            neighbor_sums_bounded(old(self).board),
        ensures
            final(self).wf(),
            final(self).steps_in_flight == 0,
            final(self).step_requested == old(self).step_requested,
            final(self).board.cx == old(self).board.cx,
            final(self).board.cy == old(self).board.cy,
            forall|x: int, y: int|
                0 <= x < old(self).board.cx && 0 <= y < old(self).board.cy
                    ==> final(self).board.cell(x, y) == next_cell(old(self).board, *rules, x, y),
    {
        next_step(&mut self.board, rules);
        self.steps_in_flight = 0;
    }

    /// One frame of foreground work, in the order the interface performs it:
    /// skip everything while the settings conflict, else adopt a changed
    /// configured size, apply the paint tool, and take the scheduling
    /// decision. The embedding program forwards a pressed request button
    /// through `request_step` before the frame.
    pub fn frame(
        &mut self,
        config: &SimulationConfig,
        mouse_down: bool,
        paint_x: i32,
        paint_y: i32,
    ) -> (start_step: bool)
        requires
            old(self).wf(),
            0 < config.board_width,
            0 < config.board_height,
            config.board_width * config.board_height <= i32::MAX,
            !config.conflict() && mouse_down && !config.hovered && (config.drawing
                || config.erasing) ==> 0 <= paint_x < config.board_width && 0 <= paint_y
                < config.board_height,
        ensures
            final(self).wf(),
            config.conflict() ==> *final(self) == *old(self) && !start_step,
            !config.conflict() ==> {
                &&& final(self).board.cx == config.board_width
                &&& final(self).board.cy == config.board_height
                &&& forall|x: int, y: int|
                    0 <= x < config.board_width && 0 <= y < config.board_height
                        ==> final(self).board.cell(x, y) == frame_cell(
                        *old(self),
                        *config,
                        mouse_down,
                        paint_x as int,
                        paint_y as int,
                        x,
                        y,
                    )
                &&& start_step == tick_starts(*old(self), config.auto_run)
                &&& final(self).step_requested == tick_post(
                    *old(self),
                    config.auto_run,
                ).step_requested
                &&& final(self).steps_in_flight == tick_post(
                    *old(self),
                    config.auto_run,
                ).steps_in_flight
            },
    {
        if config.drawing && config.erasing {
            return false;
        }
        if self.board.cx != config.board_width || self.board.cy != config.board_height {
            self.resize(config.board_width, config.board_height);
            proof {
                assert forall|x: int, y: int|
                    0 <= x < config.board_width && 0 <= y < config.board_height implies self
                    .board.cell(x, y) == 0 by {
                    lemma_flat_index_in_range(
                        self.board.cx as int,
                        self.board.cy as int,
                        x,
                        y,
                    );
                }
            }
        }
        if mouse_down && !config.hovered {
            if config.drawing {
                self.paint(paint_x, paint_y, 1);
            } else if config.erasing {
                self.paint(paint_x, paint_y, 0);
            }
        }
        self.tick(config.auto_run)
    }
}

} // verus!
