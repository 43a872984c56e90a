//! What a front end that drives the simulation provides.
use vstd::prelude::*;

verus! {

/// A front end that owns a simulation, advances it on its own schedule and
/// shows it until the user quits.
pub trait Backend {
    /// Runs until the user asks to quit.
    fn main_loop(&mut self);
}

} // verus!
