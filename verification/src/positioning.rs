//! Positional collaborator: a rectangular grid and points on it.
//!
//! The turn-resolution core only queries the grid's size and whether a point
//! lies within bounds; it owns no positional logic beyond that.

use vstd::prelude::*;

verus! {

/// A point on the grid.
#[derive(Clone, Copy, Debug, PartialEq, Eq, Structural)]
pub struct Point {
    pub x: i32,
    pub y: i32,
}

impl Point {
    pub fn new(x: i32, y: i32) -> (p: Point)
        ensures
            p.x == x,
            p.y == y,
    {
        Point { x, y }
    }
}

/// The playing field: a rectangle of `width` by `height` cells.
#[derive(Clone, Copy, Debug, PartialEq, Eq, Structural)]
pub struct Grid {
    pub width: i32,
    pub height: i32,
}

pub const DEFAULT_GRID_SIDE: i32 = 12;

impl Grid {
    pub open spec fn wf(self) -> bool {
        self.width >= 0 && self.height >= 0
    }

    /// Whether `p` lies within the grid's declared bounds.
    pub open spec fn spec_contains(self, p: Point) -> bool {
        0 <= p.x < self.width && 0 <= p.y < self.height
    }

    /// The grid's size, reported as a point on its far corner.
    pub fn size(&self) -> (p: Point)
        ensures
            p.x == self.width,
            p.y == self.height,
    {
        Point::new(self.width, self.height)
    }

    /// Bounds query used to validate location-shaped targets.
    pub fn is_within(&self, p: &Point) -> (r: bool)
        ensures
            r == self.spec_contains(*p),
    {
        0 <= p.x && p.x < self.width && 0 <= p.y && p.y < self.height
    }
}

impl Default for Grid {
    /// The default field is a square of `DEFAULT_GRID_SIDE` cells per side.
    fn default() -> (g: Grid)
        ensures
            g.width == DEFAULT_GRID_SIDE,
            g.height == DEFAULT_GRID_SIDE,
            g.wf(),
    {
        Grid { width: DEFAULT_GRID_SIDE, height: DEFAULT_GRID_SIDE }
    }
}

/// A combatant's position on the grid.
#[derive(Clone, Copy, Debug, PartialEq, Eq, Structural)]
pub struct LocationManager(pub Point);

impl Default for LocationManager {
    fn default() -> (l: LocationManager)
        ensures
            l.0.x == 0,
            l.0.y == 0,
    {
        LocationManager(Point { x: 0, y: 0 })
    }
}

} // verus!
