use vstd::prelude::*;
use crate::coordinates::Coordinates;
use crate::neighborhood::NeighborhoodPolicy;
use crate::tile::Tile;
use crate::tile_map::{flat_index, lemma_flat_index, lemma_flat_index_before, TileMap};

verus! {

/// Conway's rule B3/S23: a live cell survives with two or three live neighbours,
/// a dead cell comes alive with exactly three.
pub open spec fn next_alive(alive: bool, live_neighbors: int) -> bool {
    if alive {
        live_neighbors == 2 || live_neighbors == 3
    } else {
        live_neighbors == 3
    }
}

/// The next state of a cell with the given number of live neighbours.
pub fn next_tile(tile: Tile, live_neighbors: u8) -> (r: Tile)
    ensures
        (r is Alive) == next_alive(tile is Alive, live_neighbors as int),
{
    match tile {
        Tile::Alive => if live_neighbors == 2 || live_neighbors == 3 {
            Tile::Alive
        } else {
            Tile::Dead
        },
        Tile::Dead => if live_neighbors == 3 {
            Tile::Alive
        } else {
            Tile::Dead
        },
    }
}

/// Whether slot `(x, y)` of `next` holds the successor of that cell of `grid`.
pub open spec fn cell_advanced(grid: TileMap, next: Seq<Tile>, x: int, y: int) -> bool {
    (next[flat_index(grid.spec_width(), x, y)] is Alive) == next_alive(
        grid.alive(x, y),
        grid.clipped_count(x, y),
    )
}

impl TileMap {
    /// `next` is the generation that follows `self`: same size, and every cell is
    /// the rule applied to that cell and its neighbours in `self`.
    pub open spec fn is_next_generation(self, next: TileMap) -> bool {
        &&& next.wf()
        &&& next.spec_width() == self.spec_width()
        &&& next.spec_height() == self.spec_height()
        &&& forall|x: int, y: int|
            #![trigger next.alive(x, y)]
            self.in_bounds(x, y) ==> next.alive(x, y) == next_alive(
                self.alive(x, y),
                self.clipped_count(x, y),
            )
    }

    /// Replaces the grid with its next generation. Every cell's new state is
    /// computed from the current generation; the results are committed together
    /// once the whole grid has been scanned.
    pub fn advance(&mut self, policy: &NeighborhoodPolicy)
        requires
            old(self).wf(),
        ensures
            old(self).is_next_generation(*final(self)),
    {
        let w = self.width();
        let h = self.height();
        let ghost g = *self;
        let ghost wi = w as int;
        let mut next: Vec<Tile> = Vec::new();
        let mut y: u16 = 0;
        while y < h
            invariant
                g == *self,
                self.wf(),
                wi == self.spec_width(),
                wi == w,
                h == self.spec_height(),
                y <= h,
                next@.len() == y * wi,
                forall|xx: int, yy: int|
                    #![trigger cell_advanced(g, next@, xx, yy)]
                    0 <= xx < wi && 0 <= yy < y ==> cell_advanced(g, next@, xx, yy),
            decreases h - y,
        {
            let mut x: u16 = 0;
            while x < w
                invariant
                    g == *self,
                    self.wf(),
                    wi == self.spec_width(),
                    wi == w,
                    h == self.spec_height(),
                    y < h,
                    x <= w,
                    next@.len() == y * wi + x,
                    forall|xx: int, yy: int|
                        #![trigger cell_advanced(g, next@, xx, yy)]
                        0 <= xx < wi && 0 <= yy && (yy < y || (yy == y && xx < x))
                            ==> cell_advanced(g, next@, xx, yy),
                decreases w - x,
            {
                let c = Coordinates { x, y };
                let n = policy.live_neighbor_count(self, c);
                let t = next_tile(self.get(x, y), n);
                proof {
                    lemma_flat_index(wi, h as int, x as int, y as int, x as int, y as int);
                }
                let ghost before = next@;
                next.push(t);
                proof {
                    assert forall|xx: int, yy: int|
                        #![trigger cell_advanced(g, next@, xx, yy)]
                        0 <= xx < wi && 0 <= yy && (yy < y || (yy == y && xx < x + 1))
                            implies cell_advanced(g, next@, xx, yy) by {
                        if xx != x || yy != y {
                            lemma_flat_index_before(wi, xx, yy, x as int, y as int);
                            assert(cell_advanced(g, before, xx, yy));
                        }
                    }
                }
                x = x + 1;
            }
            proof {
                assert((y + 1) * wi == y * wi + wi) by (nonlinear_arith);
            }
            y = y + 1;
        }
        proof {
            assert(wi * h == h * wi) by (nonlinear_arith);
        }
        *self = TileMap::from_cells(w, h, next);
        proof {
            assert forall|x: int, y: int|
                #![trigger self.alive(x, y)]
                g.in_bounds(x, y) implies self.alive(x, y) == next_alive(
                    g.alive(x, y),
                    g.clipped_count(x, y),
                ) by {
                assert(cell_advanced(g, next@, x, y));
            }
        }
    }
}

/// A grid with no live cell stays without one: every cell has no live
/// neighbour, short of the three that a birth needs.
pub proof fn lemma_dead_grid_stays_dead(grid: TileMap, next: TileMap)
    requires
        grid.wf(),
        forall|x: int, y: int| !#[trigger] grid.alive(x, y),
        grid.is_next_generation(next),
    ensures
        forall|x: int, y: int| !#[trigger] next.alive(x, y),
{
    assert forall|x: int, y: int| !#[trigger] next.alive(x, y) by {
        if next.in_bounds(x, y) {
            assert(grid.clipped_count(x, y) == 0);
        }
    }
}

/// A still life stays put under every further generation: when the generation
/// after `grid` is `grid` again, so is the one after that.
pub proof fn lemma_still_life_stays(grid: TileMap, next: TileMap, after: TileMap)
    requires
        grid.wf(),
        grid.is_next_generation(next),
        forall|x: int, y: int| #[trigger] next.alive(x, y) == grid.alive(x, y),
        next.is_next_generation(after),
    ensures
        forall|x: int, y: int| #[trigger] after.alive(x, y) == grid.alive(x, y),
{
    assert forall|x: int, y: int| #[trigger] after.alive(x, y) == grid.alive(x, y) by {
        if grid.in_bounds(x, y) {
            assert(next.alive(x - 1, y - 1) == grid.alive(x - 1, y - 1));
            assert(next.alive(x, y - 1) == grid.alive(x, y - 1));
            assert(next.alive(x + 1, y - 1) == grid.alive(x + 1, y - 1));
            assert(next.alive(x - 1, y) == grid.alive(x - 1, y));
            assert(next.alive(x + 1, y) == grid.alive(x + 1, y));
            assert(next.alive(x - 1, y + 1) == grid.alive(x - 1, y + 1));
            assert(next.alive(x, y + 1) == grid.alive(x, y + 1));
            assert(next.alive(x + 1, y + 1) == grid.alive(x + 1, y + 1));
            assert(next.clipped_count(x, y) == grid.clipped_count(x, y));
            assert(next.alive(x, y) == next_alive(grid.alive(x, y), grid.clipped_count(x, y)));
            assert(after.alive(x, y) == next_alive(next.alive(x, y), next.clipped_count(x, y)));
        }
    }
}

} // verus!
