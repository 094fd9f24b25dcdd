//! The birth/survival rule tables of the automaton.

use vstd::prelude::*;

verus! {

/// Why a rule set could not be constructed.
#[derive(Clone, Copy, Debug, PartialEq, Eq, Structural)]
pub enum RulesError {
    /// A decision table does not have exactly one entry per neighbor count
    /// `0..=8`.
    BadTableLength,
    /// The lifetime granted to a newly born cell is negative.
    NegativeLifetime,
}

/// An immutable rule set: one birth and one survival decision per neighbor
/// count `0..=8`, plus the state granted to a newly born cell (`1` in the
/// base variant, a larger lifetime counter in the lifetime variant).
#[derive(Clone, Debug)]
pub struct Rules {
    /// Whether a dead cell with the given neighbor count becomes alive.
    pub birth: Vec<bool>,
    /// Whether a live cell with the given neighbor count stays alive.
    pub survive: Vec<bool>,
    /// The state written into a newly born cell.
    pub adding_lifetime: i8,
}

impl Rules {
    /// Structural invariant: exactly nine entries per table and a
    /// non-negative birth state.
    pub open spec fn wf(self) -> bool {
        &&& self.birth@.len() == 9
        &&& self.survive@.len() == 9
        &&& 0 <= self.adding_lifetime
    }

    /// Validates and assembles a rule set; this is the one place the
    /// exactly-nine-entries invariant is checked.
    pub fn new(birth: Vec<bool>, survive: Vec<bool>, adding_lifetime: i8) -> (result: Result<
        Rules,
        RulesError,
    >)
        ensures
            match result {
                Ok(rules) => {
                    &&& rules.wf()
                    &&& rules.birth@ == birth@
                    &&& rules.survive@ == survive@
                    &&& rules.adding_lifetime == adding_lifetime
                },
                Err(RulesError::BadTableLength) => birth@.len() != 9 || survive@.len() != 9,
                Err(RulesError::NegativeLifetime) => {
                    &&& birth@.len() == 9
                    &&& survive@.len() == 9
                    &&& adding_lifetime < 0
                },
            },
            result is Ok <==> (birth@.len() == 9 && survive@.len() == 9 && 0 <= adding_lifetime),
    {
        if birth.len() != 9 || survive.len() != 9 {
            Err(RulesError::BadTableLength)
        } else if adding_lifetime < 0 {
            Err(RulesError::NegativeLifetime)
        } else {
            Ok(Rules { birth, survive, adding_lifetime })
        }
    }
}

} // verus!
