//! The rendering camera: a world-space origin that input handling pans.

use vstd::prelude::*;

use crate::geom::{clamp_add, clamp_coord, V2};

verus! {

/// Where on the plane the viewport's top-left corner sits.
#[derive(Debug)]
pub struct View {
    pub origin: V2,
}

impl View {
    pub fn origin(&self) -> (r: &V2)
        ensures
            *r == self.origin,
    {
        &self.origin
    }

    /// Pans the camera by the given movement, clamped to the arena.
    pub fn displace(&mut self, movement: V2)
        ensures
            final(self).origin.x as int == clamp_coord(old(self).origin.x + movement.x),
            final(self).origin.y as int == clamp_coord(old(self).origin.y + movement.y),
    {
        let x = clamp_add(self.origin.x, movement.x);
        let y = clamp_add(self.origin.y, movement.y);
        self.origin = V2 { x, y };
    }
}

impl Default for View {
    /// The camera starts at the world origin.
    fn default() -> (v: View)
        ensures
            v.origin == (V2 { x: 0, y: 0 }),
    {
        View { origin: V2 { x: 0, y: 0 } }
    }
}

} // verus!
