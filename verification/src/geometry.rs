//! Bounded integer-grid view of the hexagonal map: the rendering and storage
//! layers index tiles with non-negative coordinates, so axial coordinates are
//! offset by `radius + 1` before they are handed over.
use vstd::prelude::*;

verus! {

use crate::hex::HexCoordinate;
use crate::hex::hex_dist;

/// The default number of tiles from the center of the map to the edge.
pub const MAP_RADIUS: u32 = 10;

/// A non-negative coordinate in the bounded grid.
#[derive(Clone, Copy, PartialEq, Eq, Structural, Debug, Hash)]
pub struct GridCoordinate {
    pub x: u32,
    pub y: u32,
}

/// Width and height of the bounded grid.
#[derive(Clone, Copy, PartialEq, Eq, Structural, Debug, Hash)]
pub struct GridSize {
    pub x: u32,
    pub y: u32,
}

/// Size and layout of the game map: a hexagon of a given radius, bounded by
/// a square grid of side `2 * radius + 1` whose central tile sits at
/// `(radius + 1, radius + 1)`.
#[derive(Clone, Copy, Debug)]
pub struct MapGeometry {
    /// The radius, in tiles, of the map.
    pub radius: u32,
    /// The grid location of the central tile.
    pub center: GridCoordinate,
    /// The bounded grid that encloses the map.
    pub size: GridSize,
}

impl MapGeometry {
    /// The geometry invariant: the grid is square with side `2 * radius + 1`
    /// and the center tile sits at `(radius + 1, radius + 1)`.
    pub open spec fn wf(self) -> bool {
        &&& self.center == (GridCoordinate { x: (self.radius + 1) as u32, y: (self.radius + 1) as u32 })
        &&& self.size.x == 2 * self.radius + 1
        &&& self.size.y == 2 * self.radius + 1
    }

    /// Constructs the geometry for a map of the given radius.
    pub fn new(radius: u32) -> (geometry: MapGeometry)
        requires
            2 * radius + 1 <= u32::MAX,
        ensures
            geometry.radius == radius,
            geometry.wf(),
    {
        MapGeometry {
            radius,
            center: GridCoordinate { x: radius + 1, y: radius + 1 },
            size: GridSize { x: 2 * radius + 1, y: 2 * radius + 1 },
        }
    }

    /// The total end-to-end diameter of the game world, in tiles.
    pub fn diameter(&self) -> (diameter: u32)
        requires
            self.wf(),
        ensures
            diameter == 2 * self.radius + 1,
    {
        self.size.x
    }

    /// The bounded grid size of the game world.
    pub fn size(&self) -> (size: GridSize)
        ensures
            size == self.size,
    {
        self.size
    }

    /// The grid coordinate of the tile at the center of the map. This is not
    /// the origin, as the grid is indexed with non-negative coordinates.
    pub fn center(&self) -> (center: GridCoordinate)
        ensures
            center == self.center,
    {
        self.center
    }

    /// Whether an axial coordinate lies on this map: within `radius` of the
    /// axial origin, which the grid maps to `center`.
    pub open spec fn on_map(self, p: HexCoordinate) -> bool {
        hex_dist(HexCoordinate { alpha: 0, beta: 0 }, p) <= self.radius
    }

    /// Converts an axial coordinate on the map to the non-negative grid
    /// coordinate that the rendering and storage layers index with: both
    /// components are offset by `radius + 1`. An off-map coordinate has no
    /// grid cell.
    pub fn to_grid(&self, p: HexCoordinate) -> (grid: Option<GridCoordinate>)
        requires
            self.wf(),
        ensures
            match grid {
                Some(g) => self.on_map(p) && g.x == p.alpha + self.radius + 1 && g.y == p.beta
                    + self.radius + 1,
                None => !self.on_map(p),
            },
    {
        let r: i64 = self.radius as i64;
        if p.alpha < -r || p.alpha > r || p.beta < -r || p.beta > r {
            return None;
        }
        let diagonal: i64 = p.alpha + p.beta;
        if diagonal < -r || diagonal > r {
            return None;
        }
        Some(GridCoordinate { x: (p.alpha + r + 1) as u32, y: (p.beta + r + 1) as u32 })
    }

    /// Converts a grid coordinate of this map back to the axial coordinate it
    /// stands for; a grid cell outside the hexagon stands for none.
    pub fn from_grid(&self, grid: GridCoordinate) -> (axial: Option<HexCoordinate>)
        requires
            self.wf(),
        ensures
            match axial {
                Some(q) => self.on_map(q) && grid.x == q.alpha + self.radius + 1 && grid.y
                    == q.beta + self.radius + 1,
                None => forall|q: HexCoordinate|
                    self.on_map(q) ==> grid.x != q.alpha + self.radius + 1 || grid.y != q.beta
                        + self.radius + 1,
            },
    {
        let r: i64 = self.radius as i64;
        let alpha: i64 = grid.x as i64 - (r + 1);
        let beta: i64 = grid.y as i64 - (r + 1);
        let q = HexCoordinate { alpha, beta };
        let diagonal: i64 = alpha + beta;
        if alpha < -r || alpha > r || beta < -r || beta > r || diagonal < -r || diagonal > r {
            proof {
                assert forall|other: HexCoordinate|
                    self.on_map(other) implies grid.x != other.alpha + self.radius + 1 || grid.y
                    != other.beta + self.radius + 1 by {
                    if grid.x == other.alpha + self.radius + 1 && grid.y == other.beta
                        + self.radius + 1 {
                        assert(other == q);
                        assert(!self.on_map(q));
                    }
                }
            }
            return None;
        }
        Some(q)
    }
}

impl Default for MapGeometry {
    /// The geometry of the default map radius.
    fn default() -> (geometry: MapGeometry)
        ensures
            geometry.radius == MAP_RADIUS,
            geometry.wf(),
    {
        MapGeometry::new(MAP_RADIUS)
    }
}

} // verus!
