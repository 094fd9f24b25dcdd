//! The per-frame simulation settings handed over by the user interface.

use vstd::prelude::*;

verus! {

/// A snapshot of the user-adjustable settings, consumed once per frame.
/// Colors and other purely visual data stay with the embedding program; the
/// core only reads plain dimensions, flags and the tick wait.
#[derive(Clone, Copy, PartialEq, Eq, Structural)]
pub struct SimulationConfig {
    /// Desired grid width, in cells.
    pub board_width: i32,
    /// Desired grid height, in cells.
    pub board_height: i32,
    /// Whether the pointer hovers the settings window (painting is ignored
    /// there).
    pub hovered: bool,
    /// Whether generations advance on their own.
    pub auto_run: bool,
    /// Whether one extra generation was requested by hand.
    pub should_simulate_next_frame: bool,
    /// How long a background step waits before computing, in milliseconds.
    pub wait_millis: u64,
    /// Whether the paint tool sets cells alive.
    pub drawing: bool,
    /// Whether the paint tool kills cells.
    pub erasing: bool,
    /// Whether dead cells are rendered as outlines.
    pub draw_borders: bool,
    /// Whether the settings are in conflict this frame.
    pub error: bool,
}

impl SimulationConfig {
    /// Drawing and erasing at once is the one conflicting combination; while
    /// it holds, no cell may be mutated.
    pub open spec fn conflict(self) -> bool {
        self.drawing && self.erasing
    }

    /// The settings at start-up: nothing runs, nothing is painted, borders
    /// are drawn.
    pub fn new(board_width: i32, board_height: i32) -> (config: SimulationConfig)
        ensures
            config == (SimulationConfig {
                board_width,
                board_height,
                hovered: false,
                auto_run: false,
                should_simulate_next_frame: false,
                wait_millis: 0,
                drawing: false,
                erasing: false,
                draw_borders: true,
                error: false,
            }),
    {
        SimulationConfig {
            board_width,
            board_height,
            hovered: false,
            auto_run: false,
            should_simulate_next_frame: false,
            wait_millis: 0,
            drawing: false,
            erasing: false,
            draw_borders: true,
            error: false,
        }
    }

    /// Re-checks the settings for a conflict, as the interface does once per
    /// frame: the error flag becomes true exactly when drawing and erasing
    /// are both requested.
    pub fn check_conflict(&mut self)
        ensures
            *final(self) == (SimulationConfig { error: old(self).conflict(), ..*old(self) }),
    {
        self.error = self.drawing && self.erasing;
    }
}

} // verus!
