//! A team-based combat simulation: units grouped into teams pick enemy
//! targets, walk toward them, and eliminate them on contact, until one side
//! is annihilated.
//!
//! Each tick splits into a read-only decide phase (one intended action per
//! live unit, computed in parallel against a frozen snapshot) and a
//! sequential apply phase that mutates the population in unit-id order.
//! Positions live on a bounded integer grid so that every geometric step of
//! the engine carries an exact contract.

use vstd::prelude::*;

pub mod builder;
pub mod geom;
pub mod laws;
pub mod sim;
pub mod view;

pub use builder::{build, example_descriptor};
pub use geom::V2;
pub use sim::{Rgb, Simulation, Team, Unit, UnitAction};
pub use view::View;

verus! {

/// What the command line asks for.
#[derive(Clone, Debug)]
pub enum Command {
    /// Print an example fight configuration.
    Example,
    /// Run a fight from the configuration file at this path.
    Run { path: String },
}

/// Top-level program parameters.
#[derive(Clone, Debug)]
pub struct Params {
    pub command: Command,
}

} // verus!
