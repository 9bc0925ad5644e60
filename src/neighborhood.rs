use vstd::prelude::*;
use crate::coordinates::Coordinates;
use crate::tile_map::TileMap;

verus! {

/// Where a cell lies with respect to the border of a grid at least two cells wide
/// and two cells tall. Row `0` is the northern border, column `0` the western one.
#[derive(Clone, Copy, Debug, PartialEq, Eq, Structural)]
pub enum BoundaryClass {
    NorthWest,
    North,
    NorthEast,
    West,
    Interior,
    East,
    SouthWest,
    South,
    SouthEast,
}

/// Boundary class of the in-range position `(x, y)` of a `width` by `height` grid.
pub open spec fn classify(x: int, y: int, width: int, height: int) -> BoundaryClass {
    let west = x == 0;
    let east = x == width - 1;
    if y == 0 {
        if west {
            BoundaryClass::NorthWest
        } else if east {
            BoundaryClass::NorthEast
        } else {
            BoundaryClass::North
        }
    } else if y == height - 1 {
        if west {
            BoundaryClass::SouthWest
        } else if east {
            BoundaryClass::SouthEast
        } else {
            BoundaryClass::South
        }
    } else {
        if west {
            BoundaryClass::West
        } else if east {
            BoundaryClass::East
        } else {
            BoundaryClass::Interior
        }
    }
}

/// Classifies the position `(x, y)` of a `width` by `height` grid.
pub fn boundary_class(x: u16, y: u16, width: u16, height: u16) -> (r: BoundaryClass)
    requires
        x < width,
        y < height,
    ensures
        r == classify(x as int, y as int, width as int, height as int),
{
    let west = x == 0;
    let east = x == width - 1;
    if y == 0 {
        if west {
            BoundaryClass::NorthWest
        } else if east {
            BoundaryClass::NorthEast
        } else {
            BoundaryClass::North
        }
    } else if y == height - 1 {
        if west {
            BoundaryClass::SouthWest
        } else if east {
            BoundaryClass::SouthEast
        } else {
            BoundaryClass::South
        }
    } else {
        if west {
            BoundaryClass::West
        } else if east {
            BoundaryClass::East
        } else {
            BoundaryClass::Interior
        }
    }
}

/// The eight Moore offsets, in the order bottom-left, bottom, bottom-right,
/// left, right, top-left, top, top-right.
pub open spec fn moore_offsets() -> Seq<(int, int)> {
    seq![(-1, -1), (0, -1), (1, -1), (-1, 0), (1, 0), (-1, 1), (0, 1), (1, 1)]
}

/// `v + d` as a coordinate, or `u16::MAX` where that falls outside the range
/// of `u16`.
pub open spec fn shifted(v: int, d: int) -> u16 {
    if 0 <= v + d <= u16::MAX {
        (v + d) as u16
    } else {
        u16::MAX
    }
}

/// The position at offset `d` from `c`, each axis shifted as `shifted` says.
pub open spec fn candidate(c: Coordinates, d: (int, int)) -> Coordinates {
    Coordinates { x: shifted(c.x as int, d.0), y: shifted(c.y as int, d.1) }
}

/// The eight candidate positions around `c`, in the order of `moore_offsets`.
pub open spec fn moore_square(c: Coordinates) -> Seq<Coordinates> {
    moore_offsets().map_values(|d: (int, int)| candidate(c, d))
}

fn shift(v: u16, d: i8) -> (r: u16)
    ensures
        r == shifted(v as int, d as int),
{
    let s: i32 = v as i32 + d as i32;
    if s < 0 || s > 65535 {
        u16::MAX
    } else {
        s as u16
    }
}

fn candidate_at(c: Coordinates, dx: i8, dy: i8) -> (r: Coordinates)
    ensures
        r == candidate(c, (dx as int, dy as int)),
{
    Coordinates { x: shift(c.x, dx), y: shift(c.y, dy) }
}

impl TileMap {
    /// `1` for a live cell, `0` for a dead cell or a position off the grid.
    pub open spec fn live(&self, x: int, y: int) -> int {
        if self.alive(x, y) {
            1
        } else {
            0
        }
    }

    /// Number of live cells among the eight Moore neighbours of `(x, y)`, every
    /// position off the grid counting as dead.
    pub open spec fn clipped_count(&self, x: int, y: int) -> int {
        self.live(x - 1, y - 1) + self.live(x, y - 1) + self.live(x + 1, y - 1)
            + self.live(x - 1, y) + self.live(x + 1, y)
            + self.live(x - 1, y + 1) + self.live(x, y + 1) + self.live(x + 1, y + 1)
    }

    /// Number of live cells among the neighbour offsets that the boundary class of
    /// `(x, y)` keeps: three at a corner, five along an edge, eight inside. A grid
    /// one cell wide or tall has no such classes and is counted as `clipped_count`.
    pub open spec fn edge_case_count(&self, x: int, y: int) -> int {
        if self.spec_width() < 2 || self.spec_height() < 2 {
            self.clipped_count(x, y)
        } else {
            match classify(x, y, self.spec_width(), self.spec_height()) {
                BoundaryClass::NorthWest => self.live(x + 1, y) + self.live(x, y + 1)
                    + self.live(x + 1, y + 1),
                BoundaryClass::NorthEast => self.live(x - 1, y) + self.live(x - 1, y + 1)
                    + self.live(x, y + 1),
                BoundaryClass::SouthWest => self.live(x, y - 1) + self.live(x + 1, y - 1)
                    + self.live(x + 1, y),
                BoundaryClass::SouthEast => self.live(x - 1, y - 1) + self.live(x, y - 1)
                    + self.live(x - 1, y),
                BoundaryClass::North => self.live(x - 1, y) + self.live(x + 1, y)
                    + self.live(x - 1, y + 1) + self.live(x, y + 1) + self.live(x + 1, y + 1),
                BoundaryClass::South => self.live(x - 1, y - 1) + self.live(x, y - 1)
                    + self.live(x + 1, y - 1) + self.live(x - 1, y) + self.live(x + 1, y),
                BoundaryClass::West => self.live(x, y - 1) + self.live(x + 1, y - 1)
                    + self.live(x + 1, y) + self.live(x, y + 1) + self.live(x + 1, y + 1),
                BoundaryClass::East => self.live(x - 1, y - 1) + self.live(x, y - 1)
                    + self.live(x - 1, y) + self.live(x - 1, y + 1) + self.live(x, y + 1),
                BoundaryClass::Interior => self.clipped_count(x, y),
            }
        }
    }

    /// Live cells among the first `k` Moore offsets from `(x, y)`.
    pub open spec fn live_among(&self, x: int, y: int, k: nat) -> int
        decreases k,
    {
        if k == 0 {
            0
        } else {
            self.live_among(x, y, (k - 1) as nat) + self.live(
                x + moore_offsets()[k - 1].0,
                y + moore_offsets()[k - 1].1,
            )
        }
    }

    /// The eight candidate positions around `coordinates`, one for each Moore
    /// offset in the order of `moore_offsets`, whatever the grid. A candidate
    /// that would fall outside the range of `u16` is `u16::MAX` on that axis,
    /// which lies off every grid; so each candidate is alive exactly when the
    /// true neighbour is.
    pub fn safe_square_at(&self, coordinates: Coordinates) -> (r: Vec<Coordinates>)
        ensures
            r@ == moore_square(coordinates),
            forall|i: int|
                0 <= i < 8 ==> self.alive(#[trigger] r@[i].x as int, r@[i].y as int) == self.alive(
                    coordinates.x + moore_offsets()[i].0,
                    coordinates.y + moore_offsets()[i].1,
                ),
    {
        let c = coordinates;
        let mut v: Vec<Coordinates> = Vec::new();
        v.push(candidate_at(c, -1, -1));
        v.push(candidate_at(c, 0, -1));
        v.push(candidate_at(c, 1, -1));
        v.push(candidate_at(c, -1, 0));
        v.push(candidate_at(c, 1, 0));
        v.push(candidate_at(c, -1, 1));
        v.push(candidate_at(c, 0, 1));
        v.push(candidate_at(c, 1, 1));
        proof {
            assert(v@ =~= moore_square(c));
            self.lemma_size_fits();
        }
        v
    }

    /// Number of live cells among the eight neighbours of `coordinates`, positions
    /// off the grid counting as dead. The cell's own state is not looked at.
    pub fn alive_count_at(&self, coordinates: Coordinates) -> (r: u8)
        requires
            self.wf(),
        ensures
            r == self.clipped_count(coordinates.x as int, coordinates.y as int),
            r <= 8,
    {
        let x = Ghost(coordinates.x as int);
        let y = Ghost(coordinates.y as int);
        let square = self.safe_square_at(coordinates);
        let mut count: u8 = 0;
        let mut i: usize = 0;
        while i < square.len()
            invariant
                self.wf(),
                square@ == moore_square(coordinates),
                forall|j: int|
                    0 <= j < 8 ==> self.alive(#[trigger] square@[j].x as int, square@[j].y as int)
                        == self.alive(x@ + moore_offsets()[j].0, y@ + moore_offsets()[j].1),
                i <= 8,
                count <= i,
                count == self.live_among(x@, y@, i as nat),
            decreases 8 - i,
        {
            if self.is_alive_at(square[i]) {
                count = count + 1;
            }
            i = i + 1;
        }
        proof {
            reveal_with_fuel(TileMap::live_among, 9);
        }
        count
    }

    /// `1` for a live cell at an in-range position.
    fn tile_live(&self, x: u16, y: u16) -> (r: u8)
        requires
            self.wf(),
            self.in_bounds(x as int, y as int),
        ensures
            r == self.live(x as int, y as int),
    {
        if self.get(x, y).is_alive() {
            1
        } else {
            0
        }
    }

    /// Neighbour count of an in-range position, reading only the offsets that its
    /// boundary class keeps, with no bounds test on each one.
    pub fn edge_case_count_at(&self, coordinates: Coordinates) -> (r: u8)
        requires
            self.wf(),
            self.in_bounds(coordinates.x as int, coordinates.y as int),
        ensures
            r == self.edge_case_count(coordinates.x as int, coordinates.y as int),
            r <= 8,
    {
        let w = self.width();
        let h = self.height();
        if w < 2 || h < 2 {
            return self.alive_count_at(coordinates);
        }
        let x = coordinates.x;
        let y = coordinates.y;
        match boundary_class(x, y, w, h) {
            BoundaryClass::NorthWest => self.tile_live(x + 1, y) + self.tile_live(x, y + 1)
                + self.tile_live(x + 1, y + 1),
            BoundaryClass::NorthEast => self.tile_live(x - 1, y) + self.tile_live(x - 1, y + 1)
                + self.tile_live(x, y + 1),
            BoundaryClass::SouthWest => self.tile_live(x, y - 1) + self.tile_live(x + 1, y - 1)
                + self.tile_live(x + 1, y),
            BoundaryClass::SouthEast => self.tile_live(x - 1, y - 1) + self.tile_live(x, y - 1)
                + self.tile_live(x - 1, y),
            BoundaryClass::North => self.tile_live(x - 1, y) + self.tile_live(x + 1, y)
                + self.tile_live(x - 1, y + 1) + self.tile_live(x, y + 1)
                + self.tile_live(x + 1, y + 1),
            BoundaryClass::South => self.tile_live(x - 1, y - 1) + self.tile_live(x, y - 1)
                + self.tile_live(x + 1, y - 1) + self.tile_live(x - 1, y)
                + self.tile_live(x + 1, y),
            BoundaryClass::West => self.tile_live(x, y - 1) + self.tile_live(x + 1, y - 1)
                + self.tile_live(x + 1, y) + self.tile_live(x, y + 1)
                + self.tile_live(x + 1, y + 1),
            BoundaryClass::East => self.tile_live(x - 1, y - 1) + self.tile_live(x, y - 1)
                + self.tile_live(x - 1, y) + self.tile_live(x - 1, y + 1)
                + self.tile_live(x, y + 1),
            BoundaryClass::Interior => self.tile_live(x - 1, y - 1) + self.tile_live(x, y - 1)
                + self.tile_live(x + 1, y - 1) + self.tile_live(x - 1, y)
                + self.tile_live(x + 1, y) + self.tile_live(x - 1, y + 1)
                + self.tile_live(x, y + 1) + self.tile_live(x + 1, y + 1),
        }
    }
}

/// Both policies give the same count at every position of every grid: the
/// offsets that a boundary class leaves out are exactly those off the grid.
pub proof fn lemma_policies_agree(grid: &TileMap, x: int, y: int)
    requires
        grid.wf(),
        grid.in_bounds(x, y),
    ensures
        grid.edge_case_count(x, y) == grid.clipped_count(x, y),
{
}

/// How positions off the grid are treated when counting neighbours. Both
/// policies treat the border as surrounded by dead cells, and agree everywhere.
#[derive(Clone, Copy, Debug, PartialEq, Eq, Structural)]
pub enum NeighborhoodPolicy {
    /// Tests each of the eight offsets against the grid's bounds.
    Clipped,
    /// Classifies the position first and reads only the offsets its class keeps.
    EdgeCase,
}

impl NeighborhoodPolicy {
    /// Number of live neighbours of an in-range position.
    pub fn live_neighbor_count(&self, grid: &TileMap, coordinates: Coordinates) -> (r: u8)
        requires
            grid.wf(),
            grid.in_bounds(coordinates.x as int, coordinates.y as int),
        ensures
            r == grid.clipped_count(coordinates.x as int, coordinates.y as int),
            r <= 8,
    {
        match self {
            NeighborhoodPolicy::Clipped => grid.alive_count_at(coordinates),
            NeighborhoodPolicy::EdgeCase => {
                proof {
                    lemma_policies_agree(grid, coordinates.x as int, coordinates.y as int);
                }
                grid.edge_case_count_at(coordinates)
            },
        }
    }
}

} // verus!
