//! Resolving a plain configuration description into a running simulation.
//!
//! A `Descriptor` is the file-format view of a fight: tuples and plain
//! integers only, so the I/O layer can read and write it directly. `unwrap`
//! turns it into engine teams and `build` spawns the population.

use vstd::prelude::*;

use crate::geom::V2;
use crate::sim;
use crate::sim::{spec_population, Rgb, Simulation};

verus! {

/// One team as configuration data: color, spawn center, spawn radius, unit
/// count.
#[derive(Clone, Copy, Debug)]
pub struct Team {
    pub color: (u8, u8, u8),
    pub position: (i64, i64),
    pub radius: u64,
    pub count: usize,
}

/// An ordered roster of team descriptors, as read from a configuration file.
#[derive(Clone, Debug)]
pub struct Descriptor {
    pub teams: Vec<Team>,
}

/// The engine team a config team resolves to.
pub open spec fn spec_team_resolved(t: Team) -> sim::Team {
    sim::Team {
        color: Rgb { r: t.color.0, g: t.color.1, b: t.color.2 },
        initial_position: V2 { x: t.position.0, y: t.position.1 },
        initial_radius: t.radius,
        initial_unit_count: t.count,
    }
}

/// An example fight configuration: three teams of a thousand units each.
pub fn example_descriptor() -> (d: Descriptor)
    ensures
        d.teams@.len() == 3,
        d.teams@[0] == (Team { color: (255, 0, 0), position: (0, 0), radius: 100, count: 1000 }),
        d.teams@[1] == (Team {
            color: (0, 255, 0),
            position: (0, 1000),
            radius: 100,
            count: 1000,
        }),
        d.teams@[2] == (Team {
            color: (0, 0, 255),
            position: (800, 500),
            radius: 100,
            count: 1000,
        }),
{
    let mut teams: Vec<Team> = Vec::new();
    teams.push(Team { color: (255, 0, 0), count: 1000, position: (0, 0), radius: 100 });
    teams.push(Team { color: (0, 255, 0), count: 1000, position: (0, 1000), radius: 100 });
    teams.push(Team { color: (0, 0, 255), count: 1000, position: (800, 500), radius: 100 });
    Descriptor { teams }
}

impl Descriptor {
    /// Resolves the configuration into engine teams, in roster order.
    pub fn unwrap(self) -> (r: Vec<sim::Team>)
        ensures
            r@.len() == self.teams@.len(),
            forall|i: int|
                0 <= i < r@.len() ==> r@[i] == spec_team_resolved(self.teams@[i]),
    {
        let Descriptor { teams } = self;
        let mut r: Vec<sim::Team> = Vec::new();
        let mut i: usize = 0;
        while i < teams.len()
            invariant
                i <= teams@.len(),
                r@.len() == i,
                forall|j: int| 0 <= j < i ==> r@[j] == spec_team_resolved(teams@[j]),
            decreases teams@.len() - i,
        {
            let t = &teams[i];
            let color = Rgb { r: t.color.0, g: t.color.1, b: t.color.2 };
            let position = V2 { x: t.position.0, y: t.position.1 };
            r.push(sim::Team::new(color, position, t.radius, t.count));
            i = i + 1;
        }
        r
    }
}

/// Builds a simulation from a configuration description: the resolved teams,
/// each spawned as a block of scattered units.
pub fn build(descr: Descriptor) -> (s: Simulation)
    ensures
        s.wf(),
        spec_population(s, descr.teams@.map_values(|t: Team| spec_team_resolved(t))),
{
    let ghost d = descr.teams@;
    let teams = descr.unwrap();
    proof {
        assert(teams@ =~= d.map_values(|t: Team| spec_team_resolved(t)));
    }
    Simulation::new(teams)
}

} // verus!
